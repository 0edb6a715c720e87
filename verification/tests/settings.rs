use n42_node::ingest::{
    ingest_credit_probe_enabled, ingest_extended_ack_enabled, ingest_virtual_block_credit_ttl_ms,
};
use n42_node::payload::sender_sharded_drain_enabled;
use n42_node::settings::{switched_off, switched_on};

#[test]
fn switches_that_are_off_by_default() {
    for text in ["1", "true", "TRUE", "yes", "YES"] {
        assert!(switched_on(Some(text)), "{text}");
        assert!(ingest_extended_ack_enabled(Some(text)));
        assert!(ingest_credit_probe_enabled(Some(text)));
    }
    for text in ["0", "True", "on", "", " 1"] {
        assert!(!switched_on(Some(text)), "{text}");
    }
    assert!(!ingest_extended_ack_enabled(None));
    assert!(!ingest_credit_probe_enabled(None));
}

#[test]
fn switches_that_are_on_by_default() {
    for text in ["0", "false", "off"] {
        assert!(switched_off(Some(text)), "{text}");
        assert!(!sender_sharded_drain_enabled(Some(text)));
    }
    for text in ["1", "OFF", ""] {
        assert!(sender_sharded_drain_enabled(Some(text)), "{text}");
    }
    assert!(sender_sharded_drain_enabled(None));
}

#[test]
fn virtual_credit_is_off_by_default() {
    assert_eq!(ingest_virtual_block_credit_ttl_ms(None), 0);
    assert_eq!(ingest_virtual_block_credit_ttl_ms(Some(250)), 250);
}
