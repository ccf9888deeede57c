//! Laws of the session store, stated over the transitions that the
//! [`SessionManager`](crate::session::SessionManager) operations implement.

use vstd::prelude::*;

use crate::order::{OrderInfo, OrderStatus, TradeRole};
use crate::session::{cancel_cleanup_spec, fresh_session, CancelCleanup, Session, SessionError, SessionsView};

verus! {

/// A successful take is stored under its order id, with no removal pending.
pub proof fn law_created_session_is_stored(
    m: SessionsView,
    order_id: String,
    role: TradeRole,
    trade_key_index: u32,
    order: OrderInfo,
    now: i64,
)
    requires
        m.create_outcome(order_id, role, trade_key_index, order, now) is Ok,
    ensures
        ({
            let r = m.create_outcome(order_id, role, trade_key_index, order, now);
            let after = m.after_create(r);
            &&& after.sessions.contains_key(order_id@)
            &&& r == Ok::<_, SessionError>(after.sessions[order_id@])
            &&& !after.deferred.contains_key(order_id@)
        }),
{
}

/// Retaking an order inside its grace window supersedes the canceled take:
/// the new session survives every later reconciliation, whatever the clock
/// says, because the retake withdrew the pending removal.
pub proof fn law_retake_supersedes_deferral(
    m: SessionsView,
    order_id: String,
    role: TradeRole,
    trade_key_index: u32,
    order: OrderInfo,
    now: i64,
    deadline: i64,
    later: i64,
)
    requires
        order_id@ == order.id@,
    ensures
        ({
            let deferred = m.deferred_until(order_id@, deadline);
            let r = deferred.create_outcome(order_id, role, trade_key_index, order, now);
            let settled = deferred.after_create(r).reconciled(later);
            &&& r == Ok::<_, SessionError>(fresh_session(order_id, role, trade_key_index, order, now))
            &&& settled.sessions.contains_key(order_id@)
            &&& settled.sessions[order_id@] == fresh_session(
                order_id,
                role,
                trade_key_index,
                order,
                now,
            )
        }),
{
    let deferred = m.deferred_until(order_id@, deadline);
    let r = deferred.create_outcome(order_id, role, trade_key_index, order, now);
    let after = deferred.after_create(r);
    assert(!after.due(later).contains(order_id@));
}

/// A take over a live session (one with no removal pending) is refused as a
/// duplicate and changes nothing.
pub proof fn law_live_session_refuses_retake(
    m: SessionsView,
    order_id: String,
    role: TradeRole,
    trade_key_index: u32,
    order: OrderInfo,
    now: i64,
)
    requires
        order_id@ == order.id@,
        m.sessions.contains_key(order_id@),
        !m.deferred.contains_key(order_id@),
    ensures
        m.create_outcome(order_id, role, trade_key_index, order, now) == Err::<Session, _>(
            SessionError::SessionAlreadyExists(order_id),
        ),
        m.after_create(m.create_outcome(order_id, role, trade_key_index, order, now)) == m,
{
}

/// A deferred session outlives every reconciliation before its deadline, so
/// a trailing notice for the canceled trade can still be decrypted.
pub proof fn law_deferred_session_survives_until_deadline(
    m: SessionsView,
    id: Seq<char>,
    deadline: i64,
    now: i64,
)
    requires
        m.sessions.contains_key(id),
        now < deadline,
    ensures
        m.deferred_until(id, deadline).reconciled(now).sessions.contains_key(id),
        m.deferred_until(id, deadline).reconciled(now).sessions[id] == m.sessions[id],
        m.deferred_until(id, deadline).reconciled(now).deferred.contains_key(id),
{
    assert(!m.deferred_until(id, deadline).due(now).contains(id));
}

/// Once its deadline is reached, a reconciliation drops the deferred session
/// and its pending removal.
pub proof fn law_deferred_session_dropped_at_deadline(
    m: SessionsView,
    id: Seq<char>,
    deadline: i64,
    now: i64,
)
    requires
        now >= deadline,
    ensures
        !m.deferred_until(id, deadline).reconciled(now).sessions.contains_key(id),
        !m.deferred_until(id, deadline).reconciled(now).deferred.contains_key(id),
{
    assert(m.deferred_until(id, deadline).due(now).contains(id));
}

/// Settling a pending removal early drops the session at once.
pub proof fn law_resolving_a_deferral_drops_the_session(m: SessionsView, id: Seq<char>, deadline: i64)
    ensures
        m.deferred_until(id, deadline).deferred.contains_key(id),
        !m.deferred_until(id, deadline).resolved(id).sessions.contains_key(id),
        !m.deferred_until(id, deadline).resolved(id).deferred.contains_key(id),
{
}

/// Without a pending removal, settling changes nothing: a live trade never
/// loses its session to an unrelated notice.
pub proof fn law_resolving_without_a_deferral_changes_nothing(m: SessionsView, id: Seq<char>)
    requires
        !m.deferred.contains_key(id),
    ensures
        m.resolved(id) == m,
{
}

/// Removing a session also withdraws its pending removal, so a later
/// settlement finds nothing to settle.
pub proof fn law_removal_clears_the_deferral(m: SessionsView, id: Seq<char>)
    ensures
        !m.removed(id).sessions.contains_key(id),
        !m.removed(id).deferred.contains_key(id),
        m.removed(id).resolved(id) == m.removed(id),
{
}

/// Reconciling twice at the same time is reconciling once.
pub proof fn law_reconcile_is_idempotent(m: SessionsView, now: i64)
    ensures
        m.reconciled(now).reconciled(now) == m.reconciled(now),
{
    let once = m.reconciled(now);
    assert(once.due(now) =~= Set::<Seq<char>>::empty());
    assert(once.reconciled(now).sessions =~= once.sessions);
    assert(once.reconciled(now).deferred =~= once.deferred);
}

/// Reconciliation never touches a session that has no pending removal.
pub proof fn law_reconcile_spares_undeferred_sessions(m: SessionsView, id: Seq<char>, now: i64)
    requires
        !m.deferred.contains_key(id),
    ensures
        m.reconciled(now).sessions.contains_key(id) == m.sessions.contains_key(id),
        m.sessions.contains_key(id) ==> m.reconciled(now).sessions[id] == m.sessions[id],
{
    assert(!m.due(now).contains(id));
}

/// The stale-session cleanup never drops a session whose take was
/// acknowledged (it has a shared key), nor one no older than the timeout, and
/// it leaves the pending removals alone.
pub proof fn law_cleanup_keeps_acknowledged_and_young_sessions(
    m: SessionsView,
    id: Seq<char>,
    now: i64,
    timeout_secs: i64,
)
    requires
        m.sessions.contains_key(id),
        m.sessions[id].shared_key is Some || now - m.sessions[id].created_at <= timeout_secs,
    ensures
        m.cleaned(now, timeout_secs).sessions.contains_key(id),
        m.cleaned(now, timeout_secs).sessions[id] == m.sessions[id],
        m.cleaned(now, timeout_secs).deferred == m.deferred,
{
    assert(!m.stale(now, timeout_secs).contains(id));
}

/// A take succeeds exactly when the ids agree and no live session holds the
/// order; the session it returns and stores records the arguments as given
/// (the side taken, the trade key, the order snapshot, the time), whatever
/// the order's kind, with no keys and no peer yet.
pub proof fn law_take_records_its_arguments(
    m: SessionsView,
    order_id: String,
    role: TradeRole,
    trade_key_index: u32,
    order: OrderInfo,
    now: i64,
)
    ensures
        ({
            let r = m.create_outcome(order_id, role, trade_key_index, order, now);
            &&& (r is Ok <==> order_id@ == order.id@ && (m.deferred.contains_key(order_id@)
                || !m.sessions.contains_key(order_id@)))
            &&& (r matches Ok(s) ==> {
                &&& s.order_id == order_id
                &&& s.role == role
                &&& s.trade_key_index == trade_key_index
                &&& s.order == order
                &&& s.created_at == now
                &&& s.shared_key is None
                &&& s.admin_shared_key is None
                &&& s.peer_pubkey is None
                &&& m.after_create(r).sessions.contains_key(order_id@)
                &&& m.after_create(r).sessions[order_id@] == s
            })
            &&& (r is Err ==> m.after_create(r) == m)
        }),
{
}

/// The cleanup drops exactly the sessions that have no shared key and are
/// older than `timeout_secs` at `now`, whatever their role; every other
/// session stays unchanged, and so do the pending removals.
pub proof fn law_cleanup_drops_exactly_the_stale_sessions(
    m: SessionsView,
    now: i64,
    timeout_secs: i64,
)
    ensures
        forall|k: Seq<char>| #[trigger]
            m.cleaned(now, timeout_secs).sessions.contains_key(k) <==> m.sessions.contains_key(k)
                && (m.sessions[k].shared_key is Some || now - m.sessions[k].created_at
                <= timeout_secs),
        forall|k: Seq<char>|
            #[trigger] m.sessions.contains_key(k) && m.sessions[k].shared_key is None && now
                - m.sessions[k].created_at > timeout_secs ==> !m.cleaned(
                now,
                timeout_secs,
            ).sessions.contains_key(k),
        forall|k: Seq<char>| #[trigger]
            m.cleaned(now, timeout_secs).sessions.contains_key(k) ==> m.cleaned(
                now,
                timeout_secs,
            ).sessions[k] == m.sessions[k],
        m.cleaned(now, timeout_secs).deferred == m.deferred,
{
}

/// A cancel keeps the session exactly for the admin-involved statuses
/// (dispute, canceled, settled or completed by an admin), drops it at once
/// exactly for a pending order, and defers its removal for every other
/// status and for an unknown one.
pub proof fn law_cancel_cleanup_classes(status: Option<OrderStatus>)
    ensures
        (cancel_cleanup_spec(status) == CancelCleanup::Keep) == (status == Some(OrderStatus::Dispute)
            || status == Some(OrderStatus::CanceledByAdmin) || status == Some(
            OrderStatus::SettledByAdmin,
        ) || status == Some(OrderStatus::CompletedByAdmin)),
        (cancel_cleanup_spec(status) == CancelCleanup::Immediate) == (status == Some(
            OrderStatus::Pending,
        )),
        (cancel_cleanup_spec(status) == CancelCleanup::Defer) == !(status == Some(
            OrderStatus::Dispute,
        ) || status == Some(OrderStatus::CanceledByAdmin) || status == Some(
            OrderStatus::SettledByAdmin,
        ) || status == Some(OrderStatus::CompletedByAdmin) || status == Some(
            OrderStatus::Pending,
        )),
{
}

} // verus!
