use mostro_client::clock::timestamp_from_reading;
use mostro_client::order::{OrderInfo, OrderKind, OrderStatus, TradeRole};
use mostro_client::session::{
    cancel_cleanup, deadline_after, CancelCleanup, Session, SessionError, SessionManager,
    BOND_SLASH_GRACE_SECS,
};

/// The time at which the tests take their trades.
const NOW: i64 = 1_700_000_000;

fn dummy_order_info(id: &str) -> OrderInfo {
    OrderInfo {
        id: id.to_string(),
        kind: OrderKind::Buy,
        status: OrderStatus::Pending,
        fiat_code: "USD".to_string(),
        fiat_amount_bits: Some(100.0f64.to_bits()),
        fiat_amount_min_bits: None,
        fiat_amount_max_bits: None,
        payment_method: "Bank".to_string(),
        premium_bits: 0.0f64.to_bits(),
        is_mine: false,
        created_at: 0,
        expires_at: None,
        amount_sats: None,
        creator_pubkey: String::new(),
        rating_bits: 0.0f64.to_bits(),
        total_reviews: 0,
        days_active: 0,
    }
}

fn manager_with_session(order_id: &str) -> SessionManager {
    let mut mgr = SessionManager::new();
    assert!(mgr
        .create_session(order_id.to_string(), TradeRole::Buyer, 0, dummy_order_info(order_id), NOW)
        .is_ok());
    mgr
}

fn retake(mgr: &mut SessionManager, order_id: &str) -> Result<Session, SessionError> {
    mgr.create_session(
        order_id.to_string(),
        TradeRole::Seller,
        7,
        dummy_order_info(order_id),
        NOW,
    )
}

#[test]
fn dispute_and_admin_states_keep_the_session() {
    for status in [
        OrderStatus::Dispute,
        OrderStatus::CanceledByAdmin,
        OrderStatus::SettledByAdmin,
        OrderStatus::CompletedByAdmin,
    ] {
        assert_eq!(cancel_cleanup(Some(&status)), CancelCleanup::Keep);
    }
}

#[test]
fn a_pending_cancel_returns_the_bond_and_drops_the_session() {
    assert_eq!(cancel_cleanup(Some(&OrderStatus::Pending)), CancelCleanup::Immediate);
}

#[test]
fn committed_and_unknown_states_defer() {
    for status in [
        Some(OrderStatus::WaitingBuyerInvoice),
        Some(OrderStatus::WaitingPayment),
        Some(OrderStatus::Active),
        Some(OrderStatus::FiatSent),
        Some(OrderStatus::InProgress),
        None,
    ] {
        assert_eq!(cancel_cleanup(status.as_ref()), CancelCleanup::Defer);
    }
}

#[test]
fn a_deferred_session_survives_until_its_deadline() {
    let order_id = "order-deferred";
    let mut mgr = manager_with_session(order_id);

    mgr.defer_removal(order_id, BOND_SLASH_GRACE_SECS, NOW);
    mgr.reconcile_deferred_removals(NOW);

    assert!(
        mgr.get_session(order_id).is_some(),
        "the session must outlive the cancel so a trailing bond-slashed can be decrypted"
    );
}

#[test]
fn a_deferred_session_is_dropped_once_the_deadline_passes() {
    let order_id = "order-expired";
    let mut mgr = manager_with_session(order_id);

    mgr.defer_removal(order_id, 0, NOW);
    mgr.reconcile_deferred_removals(NOW);

    assert!(mgr.get_session(order_id).is_none());
}

#[test]
fn resolving_a_deferral_drops_the_session_immediately() {
    let order_id = "order-slashed";
    let mut mgr = manager_with_session(order_id);

    mgr.defer_removal(order_id, BOND_SLASH_GRACE_SECS, NOW);

    assert!(mgr.resolve_deferred_removal(order_id));
    assert!(mgr.get_session(order_id).is_none());
}

#[test]
fn resolving_without_a_deferral_leaves_the_session_alone() {
    let order_id = "order-live";
    let mut mgr = manager_with_session(order_id);

    assert!(!mgr.resolve_deferred_removal(order_id));
    assert!(
        mgr.get_session(order_id).is_some(),
        "a live trade must not lose its session to an unrelated bond-slashed"
    );
}

#[test]
fn a_retake_supersedes_the_deferred_session() {
    let order_id = "order-retaken";
    let mut mgr = manager_with_session(order_id);

    mgr.defer_removal(order_id, BOND_SLASH_GRACE_SECS, NOW);
    assert!(retake(&mut mgr, order_id).is_ok(), "retake");

    mgr.reconcile_deferred_removals(NOW);

    let session = mgr.get_session(order_id).expect("session kept");
    assert_eq!(session.trade_key_index, 7);
}

#[test]
fn a_retake_at_the_deadline_keeps_its_session() {
    let order_id = "order-retaken-late";
    let mut mgr = manager_with_session(order_id);

    mgr.defer_removal(order_id, 0, NOW);
    assert!(retake(&mut mgr, order_id).is_ok(), "retake");

    mgr.reconcile_deferred_removals(NOW);

    let session = mgr.get_session(order_id).expect("session kept");
    assert_eq!(session.trade_key_index, 7);
}

#[test]
fn a_retake_over_a_live_session_is_still_refused() {
    let order_id = "order-live-take";
    let mut mgr = manager_with_session(order_id);

    let err = match retake(&mut mgr, order_id) {
        Ok(_) => panic!("duplicate take"),
        Err(e) => e,
    };

    assert!(err.message().contains("SessionAlreadyExists"));
}

#[test]
fn removing_a_session_clears_its_pending_deferral() {
    let order_id = "order-removed";
    let mut mgr = manager_with_session(order_id);

    mgr.defer_removal(order_id, BOND_SLASH_GRACE_SECS, NOW);
    mgr.remove_session(order_id);

    assert!(!mgr.resolve_deferred_removal(order_id));
}

#[test]
fn a_take_with_a_mismatched_order_id_is_refused() {
    let mut mgr = SessionManager::new();
    let err = match mgr.create_session(
        "order-a".to_string(),
        TradeRole::Buyer,
        1,
        dummy_order_info("order-b"),
        100,
    ) {
        Ok(_) => panic!("mismatched ids must be refused"),
        Err(e) => e,
    };
    assert_eq!(err.message(), "order_id mismatch: param='order-a' vs order.id='order-b'");
    assert!(mgr.get_session("order-a").is_none());
    assert!(mgr.get_session("order-b").is_none());
}

#[test]
fn a_new_session_has_no_keys_and_the_given_time() {
    let mut mgr = SessionManager::new();
    let created = match mgr.create_session(
        "order-new".to_string(),
        TradeRole::Seller,
        3,
        dummy_order_info("order-new"),
        1_700_000_000,
    ) {
        Ok(s) => s,
        Err(e) => panic!("{}", e.message()),
    };
    assert_eq!(created.order_id, "order-new");
    assert_eq!(created.role, TradeRole::Seller);
    assert_eq!(created.trade_key_index, 3);
    assert_eq!(created.shared_key, None);
    assert_eq!(created.admin_shared_key, None);
    assert_eq!(created.peer_pubkey, None);
    assert_eq!(created.created_at, 1_700_000_000);
    assert_eq!(created.order.payment_method, "Bank");
    assert_eq!(created.order.fiat_amount_bits, Some(100.0f64.to_bits()));

    let stored = mgr.get_session("order-new").expect("stored");
    assert_eq!(stored.order_id, created.order_id);
    assert_eq!(stored.trade_key_index, 3);
    assert_eq!(stored.created_at, 1_700_000_000);
}

#[test]
fn deadlines_are_inclusive_in_the_reconciliation() {
    let mut mgr = manager_with_session("order-a");
    assert!(mgr
        .create_session("order-b".to_string(), TradeRole::Buyer, 1, dummy_order_info("order-b"), NOW)
        .is_ok());
    mgr.defer_removal("order-a", 60, 1000);
    mgr.defer_removal_until("order-b", 1100);

    mgr.reconcile_deferred_removals(1059);
    assert!(mgr.get_session("order-a").is_some());
    assert!(mgr.get_session("order-b").is_some());

    mgr.reconcile_deferred_removals(1060);
    assert!(mgr.get_session("order-a").is_none());
    assert!(mgr.get_session("order-b").is_some());

    // The deferral of order-a went with its session; order-b's is still pending.
    assert!(!mgr.resolve_deferred_removal("order-a"));
    assert!(mgr.resolve_deferred_removal("order-b"));
    assert!(mgr.get_session("order-b").is_none());
}

#[test]
fn a_later_deferral_replaces_the_earlier_deadline() {
    let mut mgr = manager_with_session("order-moved");
    mgr.defer_removal_until("order-moved", 10);
    mgr.defer_removal_until("order-moved", 500);
    mgr.reconcile_deferred_removals(100);
    assert!(mgr.get_session("order-moved").is_some());
    mgr.reconcile_deferred_removals(500);
    assert!(mgr.get_session("order-moved").is_none());
}

#[test]
fn update_session_checks_the_id_and_the_presence() {
    let mut mgr = manager_with_session("order-u");
    let mut session = mgr.get_session("order-u").expect("present");
    session.peer_pubkey = Some("ab12".to_string());
    session.shared_key = Some([7u8; 32]);

    let other = match mgr.update_session("order-x", mgr.get_session("order-u").expect("present")) {
        Ok(()) => panic!("mismatched ids must be refused"),
        Err(e) => e,
    };
    assert_eq!(
        other.message(),
        "SessionOrderIdMismatch: param='order-x' vs session.order_id='order-u'"
    );

    let mut missing = mgr.get_session("order-u").expect("present");
    missing.order_id = "order-gone".to_string();
    let gone = match mgr.update_session("order-gone", missing) {
        Ok(()) => panic!("a missing session cannot be updated"),
        Err(e) => e,
    };
    assert_eq!(gone.message(), "SessionNotFound");
    assert!(mgr.get_session("order-gone").is_none());

    assert!(mgr.update_session("order-u", session).is_ok());
    let updated = mgr.get_session("order-u").expect("present");
    assert_eq!(updated.peer_pubkey, Some("ab12".to_string()));
    assert_eq!(updated.shared_key, Some([7u8; 32]));
}

#[test]
fn the_admin_key_is_stored_on_the_session() {
    let mut mgr = manager_with_session("order-d");
    assert!(mgr.set_admin_shared_key("order-d", [9u8; 32]).is_ok());
    let session = mgr.get_session("order-d").expect("present");
    assert_eq!(session.admin_shared_key, Some([9u8; 32]));
    assert_eq!(session.shared_key, None);

    let err = match mgr.set_admin_shared_key("order-none", [1u8; 32]) {
        Ok(()) => panic!("no session to update"),
        Err(e) => e,
    };
    assert_eq!(err.message(), "SessionNotFound: order-none");
}

#[test]
fn cleanup_drops_only_old_unacknowledged_sessions() {
    let mut mgr = SessionManager::new();
    for (id, at) in [("old-unacked", 100), ("old-acked", 100), ("young", 950)] {
        assert!(mgr
            .create_session(id.to_string(), TradeRole::Buyer, 0, dummy_order_info(id), at)
            .is_ok());
    }
    let mut acked = mgr.get_session("old-acked").expect("present");
    acked.shared_key = Some([1u8; 32]);
    assert!(mgr.update_session("old-acked", acked).is_ok());
    mgr.defer_removal_until("old-unacked", 5000);

    mgr.cleanup_stale_sessions(100, 1000);

    assert!(mgr.get_session("old-unacked").is_none());
    assert!(mgr.get_session("old-acked").is_some());
    assert!(mgr.get_session("young").is_some());
    // The pending removal is not the cleanup's business.
    assert!(mgr.resolve_deferred_removal("old-unacked"));
}

#[test]
fn cleanup_keeps_a_session_exactly_as_old_as_the_timeout() {
    let mut mgr = SessionManager::new();
    assert!(mgr
        .create_session("edge".to_string(), TradeRole::Buyer, 0, dummy_order_info("edge"), 900)
        .is_ok());
    mgr.cleanup_stale_sessions(100, 1000);
    assert!(mgr.get_session("edge").is_some());
    mgr.cleanup_stale_sessions(100, 1001);
    assert!(mgr.get_session("edge").is_none());
}

#[test]
fn a_fresh_take_is_never_stale_with_a_positive_timeout() {
    let mut mgr = manager_with_session("order-now");
    mgr.cleanup_stale_sessions(3600, NOW);
    assert!(mgr.get_session("order-now").is_some());
}

#[test]
fn deadlines_saturate_at_the_bounds() {
    assert_eq!(deadline_after(1000, 60), 1060);
    assert_eq!(deadline_after(1000, -2000), -1000);
    assert_eq!(deadline_after(i64::MAX - 5, 60), i64::MAX);
    assert_eq!(deadline_after(i64::MIN + 5, -60), i64::MIN);
}

#[test]
fn clock_readings_become_timestamps() {
    assert_eq!(timestamp_from_reading(Some(1_700_000_000)), 1_700_000_000);
    assert_eq!(timestamp_from_reading(None), 0);
    assert_eq!(timestamp_from_reading(Some(u64::MAX)), i64::MAX);
}

#[test]
fn removing_an_unknown_session_changes_nothing() {
    let mut mgr = manager_with_session("order-kept");
    mgr.remove_session("order-other");
    assert!(mgr.get_session("order-kept").is_some());
}

#[test]
fn error_messages_carry_their_markers() {
    assert_eq!(
        SessionError::SessionAlreadyExists("o1".to_string()).message(),
        "SessionAlreadyExists: o1"
    );
    assert_eq!(
        SessionError::SessionNotFound(Some("o2".to_string())).message(),
        "SessionNotFound: o2"
    );
    assert_eq!(SessionError::SessionNotFound(None).message(), "SessionNotFound");
}
