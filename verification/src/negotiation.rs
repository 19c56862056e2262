//! What a client says it can take: whether a plain-text error suits it (`Accept`), and
//! which body codec it can decode (`Accept-Encoding`).
use crate::models::Compression;
use crate::text::{
    has_prefix,    lemma_split_nonempty, lower_seq, split_char, split_seq, str_eq, str_views, strip_prefix,
    to_ascii_lowercase, trim, trim_seq,
};
use vstd::prelude::*;

verus! {

/// The media type of one `Accept` item: what comes before its first `;`, trimmed, in lower
/// case.
pub open spec fn media_type_of(item: Seq<char>) -> Seq<char> {
    lower_seq(trim_seq(split_seq(item, ';')[0]))
}

/// Whether an `Accept` item takes plain text.
pub open spec fn takes_text(item: Seq<char>) -> bool {
    let m = media_type_of(item);
    m == "*/*"@ || m == "text/*"@ || m == "text/plain"@
}

/// Whether one `Accept` value has an item that takes plain text.
pub open spec fn value_takes_text(raw: Seq<char>) -> bool {
    exists|i: int| 0 <= i < split_seq(raw, ',').len() && takes_text(#[trigger] split_seq(raw, ',')[i])
}

/// Whether a client takes plain text, given its `Accept` values (`None` for one that is not
/// text): yes where it sends none, else where a text value has an item that does.
pub open spec fn accepts_text(values: Seq<Option<String>>) -> bool {
    values.len() == 0 || exists|i: int| 0 <= i < values.len() && (#[trigger] values[i] matches Some(raw) && value_takes_text(raw@))
}

fn media_type(item: &str) -> (r: String)
    ensures
        r@ == media_type_of(item@),
{
    let parts = split_char(item, ';');
    proof {
        lemma_split_nonempty(item@, ';');
    }
    assert(str_views(parts@)[0] == parts@[0]@);
    to_ascii_lowercase(trim(parts[0]))
}

fn value_accepts_text(raw: &str) -> (r: bool)
    ensures
        r == value_takes_text(raw@),
{
    let items = split_char(raw, ',');
    let mut i: usize = 0;
    while i < items.len()
        invariant
            i <= items@.len(),
            str_views(items@) == split_seq(raw@, ','),
            forall|k: int| 0 <= k < i ==> !takes_text(#[trigger] split_seq(raw@, ',')[k]),
        decreases items@.len() - i,
    {
        assert(split_seq(raw@, ',')[i as int] == items@[i as int]@);
        let m = media_type(items[i]);
        if str_eq(m.as_str(), "*/*") || str_eq(m.as_str(), "text/*") || str_eq(m.as_str(), "text/plain") {
            return true;
        }
        i = i + 1;
    }
    false
}

/// Whether a client takes plain text (see [`accepts_text`]).
pub fn request_accepts_text(accept_values: &Vec<Option<String>>) -> (r: bool)
    ensures
        r == accepts_text(accept_values@),
{
    if accept_values.len() == 0 {
        return true;
    }
    let mut i: usize = 0;
    while i < accept_values.len()
        invariant
            i <= accept_values@.len(),
            accept_values@.len() > 0,
            forall|k: int| 0 <= k < i ==> !(#[trigger] accept_values@[k] matches Some(raw) && value_takes_text(raw@)),
        decreases accept_values@.len() - i,
    {
        match &accept_values[i] {
            Some(raw) => {
                if value_accepts_text(raw.as_str()) {
                    return true;
                }
            },
            None => {},
        }
        i = i + 1;
    }
    false
}

/// One item of an `Accept-Encoding` value: its coding, trimmed and in lower case, and its
/// parameters, each trimmed.
#[derive(Debug)]
pub struct CodingItem {
    pub coding: String,
    pub params: Vec<String>,
}

/// The items of an `Accept-Encoding` value, as its `,`-separated pieces.
pub open spec fn coding_item_of(piece: Seq<char>) -> (Seq<char>, Seq<Seq<char>>) {
    let parts = split_seq(piece, ';');
    (lower_seq(trim_seq(parts[0])), parts.drop_first().map_values(|p: Seq<char>| trim_seq(p)))
}

pub open spec fn param_views(v: Seq<String>) -> Seq<Seq<char>> {
    v.map_values(|p: String| p@)
}

/// The items of one `Accept-Encoding` value, one per `,`-separated piece.
pub fn accept_encoding_items(raw: &str) -> (r: Vec<CodingItem>)
    ensures
        r@.len() == split_seq(raw@, ',').len(),
        forall|i: int| 0 <= i < r@.len() ==> (#[trigger] r@[i]).coding@ == coding_item_of(split_seq(raw@, ',')[i]).0
            && param_views(r@[i].params@) == coding_item_of(split_seq(raw@, ',')[i]).1,
{
    let pieces = split_char(raw, ',');
    let mut out: Vec<CodingItem> = Vec::new();
    let mut i: usize = 0;
    while i < pieces.len()
        invariant
            i <= pieces@.len(),
            str_views(pieces@) == split_seq(raw@, ','),
            out@.len() == i,
            forall|k: int| 0 <= k < i ==> (#[trigger] out@[k]).coding@ == coding_item_of(split_seq(raw@, ',')[k]).0
                && param_views(out@[k].params@) == coding_item_of(split_seq(raw@, ',')[k]).1,
        decreases pieces@.len() - i,
    {
        let piece = pieces[i];
        assert(split_seq(raw@, ',')[i as int] == piece@);
        let parts = split_char(piece, ';');
        proof {
            lemma_split_nonempty(piece@, ';');
        }
        assert(str_views(parts@)[0] == parts@[0]@);
        let coding = to_ascii_lowercase(trim(parts[0]));
        let mut params: Vec<String> = Vec::new();
        let mut j: usize = 1;
        let ghost ps = split_seq(piece@, ';');
        while j < parts.len()
            invariant
                1 <= j <= parts@.len(),
                str_views(parts@) == ps,
                param_views(params@) == ps.subrange(1, j as int).map_values(|p: Seq<char>| trim_seq(p)),
            decreases parts@.len() - j,
        {
            assert(ps[j as int] == parts@[j as int]@);
            let t = trim(parts[j]);
            let ghost before = param_views(params@);
            params.push(String::from_str(t));
            assert(param_views(params@) =~= before.push(t@));
            assert(ps.subrange(1, j + 1).map_values(|p: Seq<char>| trim_seq(p)) =~= ps.subrange(1, j as int).map_values(
                |p: Seq<char>| trim_seq(p),
            ).push(trim_seq(ps[j as int])));
            j = j + 1;
        }
        assert(ps.subrange(1, ps.len() as int) =~= ps.drop_first());
        out.push(CodingItem { coding, params });
        i = i + 1;
    }
    out
}

/// The value of a `q=` parameter, where the parameter is one.
pub fn q_value_text(param: &str) -> (r: Option<&str>)
    ensures
        match r {
            Some(v) => has_prefix(param@, "q="@) && v@ == param@.subrange(2, param@.len() as int),
            None => !has_prefix(param@, "q="@),
        },
{
    proof {
        reveal_strlit("q=");
    }
    strip_prefix(param, "q=")
}

/// A coding a client names, and whether it refuses it (`q=0`).
#[derive(Debug)]
pub struct AcceptedCoding {
    pub coding: String,
    pub refused: bool,
}

/// Whether a client can decode `coding`: it names it, or names `*` where a wildcard counts,
/// without refusing it. A client that names no coding takes none.
pub open spec fn accepts_coding(codings: Seq<AcceptedCoding>, coding: Seq<char>, allow_wildcard: bool) -> bool {
    exists|i: int| 0 <= i < codings.len() && ((#[trigger] codings[i]).coding@ == coding || (allow_wildcard && codings[i].coding@ == "*"@)) && !codings[i].refused
}

/// Whether a client can decode `coding` (see [`accepts_coding`]).
pub fn request_accepts(codings: &Vec<AcceptedCoding>, coding: &str, allow_wildcard: bool) -> (r: bool)
    ensures
        r == accepts_coding(codings@, coding@, allow_wildcard),
{
    proof {
        reveal_strlit("*");
    }
    let mut i: usize = 0;
    while i < codings.len()
        invariant
            i <= codings@.len(),
            forall|k: int| 0 <= k < i ==> !(((#[trigger] codings@[k]).coding@ == coding@ || (allow_wildcard && codings@[k].coding@ == "*"@)) && !codings@[k].refused),
        decreases codings@.len() - i,
    {
        let c = &codings[i];
        if (str_eq(c.coding.as_str(), coding) || (allow_wildcard && str_eq(c.coding.as_str(), "*"))) && !c.refused {
            return true;
        }
        i = i + 1;
    }
    false
}

/// The codec a response is compressed with: the best the client can decode, `zstd` before
/// `gzip` before `lz4`, where a bare `*` counts for `gzip` only; none where it takes none.
pub open spec fn negotiated(codings: Seq<AcceptedCoding>) -> Compression {
    if accepts_coding(codings, "zstd"@, false) {
        Compression::Zstd
    } else if accepts_coding(codings, "gzip"@, true) {
        Compression::Gzip
    } else if accepts_coding(codings, "lz4"@, false) {
        Compression::Lz4
    } else {
        Compression::Identity
    }
}

/// The codec a response is compressed with (see [`negotiated`]).
pub fn negotiate_response_compression(codings: &Vec<AcceptedCoding>) -> (r: Compression)
    ensures
        r == negotiated(codings@),
{
    if request_accepts(codings, "zstd", false) {
        Compression::Zstd
    } else if request_accepts(codings, "gzip", true) {
        Compression::Gzip
    } else if request_accepts(codings, "lz4", false) {
        Compression::Lz4
    } else {
        Compression::Identity
    }
}

/// A client that names no coding is sent no compressed body; and whatever codec is chosen,
/// the client named it (or, for gzip, a bare `*`) without refusing it.
pub proof fn lemma_negotiated_codec_is_decodable(codings: Seq<AcceptedCoding>)
    ensures
        codings.len() == 0 ==> negotiated(codings) == Compression::Identity,
        negotiated(codings) == Compression::Zstd ==> accepts_coding(codings, "zstd"@, false),
        negotiated(codings) == Compression::Gzip ==> accepts_coding(codings, "gzip"@, true),
        negotiated(codings) == Compression::Lz4 ==> accepts_coding(codings, "lz4"@, false),
{
}

} // verus!
