use mq_bridge::ibm_mq::{default_library_name, library_candidates, TargetOs};

#[test]
fn the_client_library_is_looked_for_in_priority_order() {
    assert_eq!(default_library_name(TargetOs::Other), "libmqm_r.so");
    assert_eq!(default_library_name(TargetOs::MacOs), "libmqm_r.dylib");
    assert_eq!(default_library_name(TargetOs::Windows), "mqm.dll");
    assert_eq!(
        library_candidates(Some("/opt/x.so"), Some("/opt/mqm"), "libmqm_r.so"),
        vec![
            "/opt/x.so".to_string(),
            "/opt/mqm/lib64/libmqm_r.so".to_string(),
            "/opt/mqm/lib/libmqm_r.so".to_string(),
            "libmqm_r.so".to_string(),
        ]
    );
    assert_eq!(library_candidates(Some(""), None, "mqm.dll"), vec!["mqm.dll".to_string()]);
}
