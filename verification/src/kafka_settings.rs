//! The client settings a Kafka endpoint opens its connections with: the connection and
//! security settings every client shares, the producer's reliability defaults, and the
//! consumer's group and start position, each overridable by the configured options.
use crate::message::Metadata;
use crate::models::KafkaConfig;
use crate::text::{concat2, str_eq};
use vstd::prelude::*;
use vstd::string::*;

verus! {

/// Client settings: each key holds one value, and a later setting replaces an earlier one.
pub type Settings = Map<Seq<char>, Seq<char>>;

/// The settings every client of an endpoint shares: its servers; under TLS, `ssl` with the
/// configured files and certificate verification unless invalid certificates are accepted;
/// with a user name and a password, SASL `PLAIN` over `sasl_ssl`.
pub open spec fn common_settings(c: KafkaConfig) -> Settings {
    let m0 = Map::<Seq<char>, Seq<char>>::empty().insert("bootstrap.servers"@, c.url@);
    let m1 = if c.tls.required {
        let a = m0.insert("security.protocol"@, "ssl"@);
        let b = match c.tls.ca_file {
            Some(f) => a.insert("ssl.ca.location"@, f@),
            None => a,
        };
        let d = match c.tls.cert_file {
            Some(f) => b.insert("ssl.certificate.location"@, f@),
            None => b,
        };
        let e = match c.tls.key_file {
            Some(f) => d.insert("ssl.key.location"@, f@),
            None => d,
        };
        e.insert(
            "enable.ssl.certificate.verification"@,
            if c.tls.accept_invalid_certs { "false"@ } else { "true"@ },
        )
    } else {
        m0
    };
    match (c.username, c.password) {
        (Some(u), Some(p)) => m1.insert("sasl.mechanism"@, "PLAIN"@).insert("sasl.username"@, u@).insert(
            "sasl.password"@,
            p@,
        ).insert("security.protocol"@, "sasl_ssl"@),
        _ => m1,
    }
}

/// The settings after the configured options are set, in their order.
pub open spec fn options_applied(m: Settings, opts: Seq<(String, String)>) -> Settings
    decreases opts.len(),
{
    if opts.len() == 0 {
        m
    } else {
        options_applied(m, opts.drop_last()).insert(opts.last().0@, opts.last().1@)
    }
}

/// Whether the options weaken `acks` below `all`.
pub open spec fn weakens_acks(opts: Seq<(String, String)>) -> bool {
    exists|i: int| 0 <= i < opts.len() && (#[trigger] opts[i]).0@ == "acks"@ && opts[i].1@ != "all"@ && opts[i].1@ != "-1"@
}

/// Whether the options set idempotence themselves.
pub open spec fn sets_idempotence(opts: Seq<(String, String)>) -> bool {
    exists|i: int| 0 <= i < opts.len() && (#[trigger] opts[i]).0@ == "enable.idempotence"@
}

/// A producer's settings: the shared ones, then batching, lz4, an idempotent producer that
/// waits for every replica and a 30 s request timeout; then the producer options; with
/// idempotence off where they weaken `acks` without setting it.
pub open spec fn producer_settings(c: KafkaConfig) -> Settings {
    let m = common_settings(c).insert("linger.ms"@, "5"@).insert("batch.num.messages"@, "10000"@).insert(
        "compression.type"@,
        "lz4"@,
    ).insert("enable.idempotence"@, "true"@).insert("acks"@, "all"@).insert("request.timeout.ms"@, "30000"@);
    match c.producer_options {
        Some(o) => {
            let applied = options_applied(m, o@);
            if weakens_acks(o@) && !sets_idempotence(o@) {
                applied.insert("enable.idempotence"@, "false"@)
            } else {
                applied
            }
        },
        None => m,
    }
}

/// A consumer's settings: the shared ones; in a group, that group from the earliest record;
/// without one, its own group `event-sub-<id>` from the latest; fetching at once, a 30 s
/// connection setup and no automatic commit; then the consumer options; and always the
/// end-of-partition events that a drain relies on.
pub open spec fn consumer_settings_of(c: KafkaConfig, subscriber_id: Seq<char>) -> Settings {
    let m = match c.group_id {
        Some(g) => common_settings(c).insert("group.id"@, g@).insert("auto.offset.reset"@, "earliest"@),
        None => common_settings(c).insert("group.id"@, "event-sub-"@ + subscriber_id).insert(
            "auto.offset.reset"@,
            "latest"@,
        ),
    };
    let m = m.insert("fetch.min.bytes"@, "1"@).insert("socket.connection.setup.timeout.ms"@, "30000"@).insert(
        "enable.auto.commit"@,
        "false"@,
    );
    let m = match c.consumer_options {
        Some(o) => options_applied(m, o@),
        None => m,
    };
    m.insert("enable.partition.eof"@, "true"@)
}

fn set(m: &mut Metadata, key: &str, value: &str)
    ensures
        final(m)@ == old(m)@.insert(key@, value@),
{
    m.insert(String::from_str(key), String::from_str(value));
}

fn apply_options(m: &mut Metadata, opts: &Vec<(String, String)>)
    ensures
        final(m)@ == options_applied(old(m)@, opts@),
{
    let ghost start = m@;
    let mut i: usize = 0;
    assert(opts@.subrange(0, 0) =~= Seq::<(String, String)>::empty());
    while i < opts.len()
        invariant
            i <= opts@.len(),
            m@ == options_applied(start, opts@.subrange(0, i as int)),
        decreases opts@.len() - i,
    {
        let ghost sub = opts@.subrange(0, i + 1);
        assert(sub.drop_last() =~= opts@.subrange(0, i as int));
        set(m, opts[i].0.as_str(), opts[i].1.as_str());
        i = i + 1;
    }
    assert(opts@.subrange(0, opts@.len() as int) =~= opts@);
}

/// The settings every client of an endpoint shares (see [`common_settings`]).
pub fn create_common_config(config: &KafkaConfig) -> (r: Metadata)
    ensures
        r@ == common_settings(*config),
{
    let mut m = Metadata::new();
    set(&mut m, "bootstrap.servers", config.url.as_str());
    if config.tls.required {
        set(&mut m, "security.protocol", "ssl");
        match &config.tls.ca_file {
            Some(f) => set(&mut m, "ssl.ca.location", f.as_str()),
            None => {},
        }
        match &config.tls.cert_file {
            Some(f) => set(&mut m, "ssl.certificate.location", f.as_str()),
            None => {},
        }
        match &config.tls.key_file {
            Some(f) => set(&mut m, "ssl.key.location", f.as_str()),
            None => {},
        }
        set(&mut m, "enable.ssl.certificate.verification", if config.tls.accept_invalid_certs { "false" } else { "true" });
    }
    match (&config.username, &config.password) {
        (Some(u), Some(p)) => {
            set(&mut m, "sasl.mechanism", "PLAIN");
            set(&mut m, "sasl.username", u.as_str());
            set(&mut m, "sasl.password", p.as_str());
            set(&mut m, "security.protocol", "sasl_ssl");
        },
        _ => {},
    }
    m
}

fn option_checks(opts: &Vec<(String, String)>) -> (r: (bool, bool))
    ensures
        r.0 == weakens_acks(opts@),
        r.1 == sets_idempotence(opts@),
{
    proof {
        reveal_strlit("acks");
        reveal_strlit("all");
        reveal_strlit("-1");
        reveal_strlit("enable.idempotence");
    }
    let mut weakened = false;
    let mut sets = false;
    let mut i: usize = 0;
    while i < opts.len()
        invariant
            i <= opts@.len(),
            weakened == exists|k: int| 0 <= k < i && (#[trigger] opts@[k]).0@ == "acks"@ && opts@[k].1@ != "all"@ && opts@[k].1@ != "-1"@,
            sets == exists|k: int| 0 <= k < i && (#[trigger] opts@[k]).0@ == "enable.idempotence"@,
        decreases opts@.len() - i,
    {
        let k = opts[i].0.as_str();
        let v = opts[i].1.as_str();
        if str_eq(k, "acks") && !str_eq(v, "all") && !str_eq(v, "-1") {
            weakened = true;
        }
        if str_eq(k, "enable.idempotence") {
            sets = true;
        }
        i = i + 1;
    }
    (weakened, sets)
}

/// A producer's settings (see [`producer_settings`]).
pub fn kafka_producer_config(config: &KafkaConfig) -> (r: Metadata)
    ensures
        r@ == producer_settings(*config),
{
    let mut m = create_common_config(config);
    set(&mut m, "linger.ms", "5");
    set(&mut m, "batch.num.messages", "10000");
    set(&mut m, "compression.type", "lz4");
    set(&mut m, "enable.idempotence", "true");
    set(&mut m, "acks", "all");
    set(&mut m, "request.timeout.ms", "30000");
    match &config.producer_options {
        Some(opts) => {
            apply_options(&mut m, opts);
            let (weakened, sets) = option_checks(opts);
            if weakened && !sets {
                set(&mut m, "enable.idempotence", "false");
            }
        },
        None => {},
    }
    m
}

/// A consumer's settings, given the id a subscriber's own group is named after (see
/// [`consumer_settings_of`]).
pub fn kafka_consumer_config(config: &KafkaConfig, subscriber_id: &str) -> (r: Metadata)
    ensures
        r@ == consumer_settings_of(*config, subscriber_id@),
{
    let mut m = create_common_config(config);
    match &config.group_id {
        Some(g) => {
            set(&mut m, "group.id", g.as_str());
            set(&mut m, "auto.offset.reset", "earliest");
        },
        None => {
            let group = concat2("event-sub-", subscriber_id);
            set(&mut m, "group.id", group.as_str());
            set(&mut m, "auto.offset.reset", "latest");
        },
    }
    set(&mut m, "fetch.min.bytes", "1");
    set(&mut m, "socket.connection.setup.timeout.ms", "30000");
    set(&mut m, "enable.auto.commit", "false");
    match &config.consumer_options {
        Some(opts) => apply_options(&mut m, opts),
        None => {},
    }
    set(&mut m, "enable.partition.eof", "true");
    m
}

/// A fresh id to name a subscriber's own group after.
///
/// Calls `fast_uuid_v7::gen_id_string`, a UUIDv7 built from the clock and a random
/// counter; nothing is stated of the text.
#[verifier::external_body]
fn fresh_id_string() -> String {
    fast_uuid_v7::gen_id_string()
}

/// A consumer's settings, a subscriber's group named after a fresh id: whatever the id, the
/// settings are [`consumer_settings_of`] for it.
pub fn kafka_consumer_config_fresh(config: &KafkaConfig) -> (r: (Metadata, String))
    ensures
        r.0@ == consumer_settings_of(*config, r.1@),
{
    let id = fresh_id_string();
    let m = kafka_consumer_config(config, id.as_str());
    (m, id)
}

} // verus!
