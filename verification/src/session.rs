//! Per-trade session state.

use vstd::prelude::*;

use crate::keyed::{
    distinct_keys, keyed, lemma_keyed_absent, lemma_keyed_at, lemma_keyed_push, lemma_keyed_remove,
    lemma_keyed_update, lemma_keyed_value,
};
use crate::order::{OrderInfo, OrderStatus, TradeRole};

verus! {

/// Per-trade session state.
///
/// Each active trade has a session that tracks the order, this client's role,
/// the trade key and the peer's identity. Sessions are created when a trade
/// is taken and dropped on completion, cancellation or timeout.
#[derive(Clone)]
pub struct Session {
    pub order_id: String,
    pub role: TradeRole,
    pub trade_key_index: u32,
    /// ECDH shared key with the peer, known once the daemon has announced
    /// the peer's public key.
    pub shared_key: Option<[u8; 32]>,
    /// ECDH shared key with the admin, for the dispute chat.
    pub admin_shared_key: Option<[u8; 32]>,
    /// The peer's public key, in hex.
    pub peer_pubkey: Option<String>,
    /// The order as it was when the trade was taken.
    pub order: OrderInfo,
    /// Unix time at which the session was created.
    pub created_at: i64,
}

impl Session {
    /// A field-by-field copy, equal to the original.
    pub fn duplicate(&self) -> (r: Self)
        ensures
            r == *self,
    {
        Session {
            order_id: self.order_id.clone(),
            role: self.role,
            trade_key_index: self.trade_key_index,
            shared_key: self.shared_key,
            admin_shared_key: self.admin_shared_key,
            peer_pubkey: match &self.peer_pubkey {
                Some(p) => Some(p.clone()),
                None => None,
            },
            order: self.order.duplicate(),
            created_at: self.created_at,
        }
    }
}

/// What becomes of a session when its order is canceled.
#[derive(Debug, Clone, Copy, PartialEq, Eq, Structural)]
pub enum CancelCleanup {
    /// Drop the session now.
    Immediate,
    /// Keep the session through the bond-slash grace window, then drop it.
    Defer,
    /// Dispute and admin states still need the session's keys for the admin chat.
    Keep,
}

/// The statuses in which an admin is involved with the trade.
pub open spec fn admin_involved(status: OrderStatus) -> bool {
    status == OrderStatus::Dispute || status == OrderStatus::CanceledByAdmin
        || status == OrderStatus::SettledByAdmin || status == OrderStatus::CompletedByAdmin
}

/// The fate of a session, from the order status recorded before the cancel.
pub open spec fn cancel_cleanup_spec(status: Option<OrderStatus>) -> CancelCleanup {
    match status {
        Some(s) => if admin_involved(s) {
            CancelCleanup::Keep
        } else if s == OrderStatus::Pending {
            CancelCleanup::Immediate
        } else {
            CancelCleanup::Defer
        },
        None => CancelCleanup::Defer,
    }
}

/// Decides a session's fate from the order status recorded *before* the
/// cancel was applied: admin and dispute states keep it, a pending order
/// (no bond at stake yet) drops it at once, everything else defers.
pub fn cancel_cleanup(status: Option<&OrderStatus>) -> (r: CancelCleanup)
    ensures
        r == cancel_cleanup_spec(match status { Some(s) => Some(*s), None => None }),
        (r == CancelCleanup::Keep) == (status == Some(&OrderStatus::Dispute) || status == Some(
            &OrderStatus::CanceledByAdmin,
        ) || status == Some(&OrderStatus::SettledByAdmin) || status == Some(
            &OrderStatus::CompletedByAdmin,
        )),
        (r == CancelCleanup::Immediate) == (status == Some(&OrderStatus::Pending)),
{
    match status {
        Some(OrderStatus::Dispute) | Some(OrderStatus::CanceledByAdmin) | Some(
            OrderStatus::SettledByAdmin,
        ) | Some(OrderStatus::CompletedByAdmin) => CancelCleanup::Keep,
        Some(OrderStatus::Pending) => CancelCleanup::Immediate,
        _ => CancelCleanup::Defer,
    }
}

/// On a timeout slash the daemon sends `canceled` first and `bond-slashed`
/// a moment later. Dropping the session on `canceled` would discard the trade
/// key needed to read the trailing notice, so removal waits this many seconds.
pub const BOND_SLASH_GRACE_SECS: i64 = 60;

/// Why a session operation was refused.
pub enum SessionError {
    /// The order id passed alongside an order differs from the order's own id.
    OrderIdMismatch { param: String, order_id: String },
    /// A live session already exists for the order (a duplicate take).
    SessionAlreadyExists(String),
    /// The order id passed alongside a session differs from the session's own.
    SessionOrderIdMismatch { param: String, session_order_id: String },
    /// No session exists for the order; the id is named where the caller
    /// asked about one session by id alone.
    SessionNotFound(Option<String>),
}

impl SessionError {
    /// The error's text; it starts with a stable marker that callers match on.
    pub open spec fn text(&self) -> Seq<char> {
        match self {
            SessionError::OrderIdMismatch { param, order_id } => "order_id mismatch: param='"@
                + param@ + "' vs order.id='"@ + order_id@ + "'"@,
            SessionError::SessionAlreadyExists(id) => "SessionAlreadyExists: "@ + id@,
            SessionError::SessionOrderIdMismatch { param, session_order_id } =>
                "SessionOrderIdMismatch: param='"@ + param@ + "' vs session.order_id='"@
                + session_order_id@ + "'"@,
            SessionError::SessionNotFound(Some(id)) => "SessionNotFound: "@ + id@,
            SessionError::SessionNotFound(None) => "SessionNotFound"@,
        }
    }

    /// The error's text, as [`Self::text`] states it.
    pub fn message(&self) -> (r: String)
        ensures
            r@ == self.text(),
    {
        match self {
            SessionError::OrderIdMismatch { param, order_id } => {
                let mut r = String::from_str("order_id mismatch: param='");
                r.append(param.as_str());
                r.append("' vs order.id='");
                r.append(order_id.as_str());
                r.append("'");
                r
            },
            SessionError::SessionAlreadyExists(id) => {
                let mut r = String::from_str("SessionAlreadyExists: ");
                r.append(id.as_str());
                r
            },
            SessionError::SessionOrderIdMismatch { param, session_order_id } => {
                let mut r = String::from_str("SessionOrderIdMismatch: param='");
                r.append(param.as_str());
                r.append("' vs session.order_id='");
                r.append(session_order_id.as_str());
                r.append("'");
                r
            },
            SessionError::SessionNotFound(Some(id)) => {
                let mut r = String::from_str("SessionNotFound: ");
                r.append(id.as_str());
                r
            },
            SessionError::SessionNotFound(None) => String::from_str("SessionNotFound"),
        }
    }
}

/// A pending removal: the session for `order_id` is dropped once the clock
/// reaches `deadline`.
struct DeferredRemoval {
    order_id: String,
    deadline: i64,
}

/// The sessions and the pending removals, by order id.
pub struct SessionsView {
    pub sessions: Map<Seq<char>, Session>,
    pub deferred: Map<Seq<char>, i64>,
}

/// A new session for a trade just taken: no keys and no peer yet.
pub open spec fn fresh_session(
    order_id: String,
    role: TradeRole,
    trade_key_index: u32,
    order: OrderInfo,
    now: i64,
) -> Session {
    Session {
        order_id,
        role,
        trade_key_index,
        shared_key: None,
        admin_shared_key: None,
        peer_pubkey: None,
        order,
        created_at: now,
    }
}

/// A session the cleanup drops: never acknowledged (no shared key) and
/// older than `timeout_secs` at time `now`.
pub open spec fn is_stale(s: Session, now: i64, timeout_secs: i64) -> bool {
    s.shared_key is None && now - s.created_at > timeout_secs
}

impl SessionsView {
    /// Every session is stored under its own order id.
    pub open spec fn keys_match(self) -> bool {
        forall|k: Seq<char>| #[trigger]
            self.sessions.dom().contains(k) ==> self.sessions[k].order_id@ == k
    }

    /// What taking an order answers: a mismatched id is refused, so is a take
    /// over a live session; a session awaiting deferred removal is superseded.
    pub open spec fn create_outcome(
        self,
        order_id: String,
        role: TradeRole,
        trade_key_index: u32,
        order: OrderInfo,
        now: i64,
    ) -> Result<Session, SessionError> {
        if order_id@ != order.id@ {
            Err(SessionError::OrderIdMismatch { param: order_id, order_id: order.id })
        } else if !self.deferred.contains_key(order_id@) && self.sessions.contains_key(order_id@) {
            Err(SessionError::SessionAlreadyExists(order_id))
        } else {
            Ok(fresh_session(order_id, role, trade_key_index, order, now))
        }
    }

    /// The store after a take answered `r`: a new session replaces any
    /// deferred one, deadline included; a refused take changes nothing.
    pub open spec fn after_create(self, r: Result<Session, SessionError>) -> SessionsView {
        match r {
            Ok(s) => SessionsView {
                sessions: self.sessions.insert(s.order_id@, s),
                deferred: self.deferred.remove(s.order_id@),
            },
            Err(_) => self,
        }
    }

    /// The store without the session for `id` and without its pending removal.
    pub open spec fn removed(self, id: Seq<char>) -> SessionsView {
        SessionsView { sessions: self.sessions.remove(id), deferred: self.deferred.remove(id) }
    }

    /// The store with the removal of `id` pending until `deadline`.
    pub open spec fn deferred_until(self, id: Seq<char>, deadline: i64) -> SessionsView {
        SessionsView { sessions: self.sessions, deferred: self.deferred.insert(id, deadline) }
    }

    /// Settling a deferred removal early drops the session; without a
    /// pending removal nothing changes.
    pub open spec fn resolved(self, id: Seq<char>) -> SessionsView {
        if self.deferred.contains_key(id) {
            self.removed(id)
        } else {
            self
        }
    }

    /// The order ids whose removal deadline has been reached at `now`.
    pub open spec fn due(self, now: i64) -> Set<Seq<char>> {
        Set::new(|k: Seq<char>| self.deferred.contains_key(k) && now >= self.deferred[k])
    }

    /// The store after dropping every session whose deadline has been reached.
    pub open spec fn reconciled(self, now: i64) -> SessionsView {
        SessionsView {
            sessions: self.sessions.remove_keys(self.due(now)),
            deferred: self.deferred.remove_keys(self.due(now)),
        }
    }

    /// The order ids of the stale sessions at `now`.
    pub open spec fn stale(self, now: i64, timeout_secs: i64) -> Set<Seq<char>> {
        Set::new(
            |k: Seq<char>|
                self.sessions.contains_key(k) && is_stale(self.sessions[k], now, timeout_secs),
        )
    }

    /// The store after dropping the stale sessions.
    pub open spec fn cleaned(self, now: i64, timeout_secs: i64) -> SessionsView {
        SessionsView {
            sessions: self.sessions.remove_keys(self.stale(now, timeout_secs)),
            deferred: self.deferred,
        }
    }
}

spec fn session_key() -> spec_fn(Session) -> Seq<char> {
    |s: Session| s.order_id@
}

spec fn session_val() -> spec_fn(Session) -> Session {
    |s: Session| s
}

spec fn deferral_key() -> spec_fn(DeferredRemoval) -> Seq<char> {
    |d: DeferredRemoval| d.order_id@
}

spec fn deferral_deadline() -> spec_fn(DeferredRemoval) -> i64 {
    |d: DeferredRemoval| d.deadline
}

/// `now + delay_secs`, held at the bounds of `i64`.
pub open spec fn clamped_deadline(now: i64, delay_secs: i64) -> i64 {
    if now + delay_secs > i64::MAX {
        i64::MAX
    } else if now + delay_secs < i64::MIN {
        i64::MIN
    } else {
        (now + delay_secs) as i64
    }
}

/// The deadline `delay_secs` after `now`, held at the bounds of `i64`.
pub fn deadline_after(now: i64, delay_secs: i64) -> (r: i64)
    ensures
        r == clamped_deadline(now, delay_secs),
{
    if delay_secs >= 0 {
        if now <= i64::MAX - delay_secs {
            now + delay_secs
        } else {
            i64::MAX
        }
    } else {
        if now >= i64::MIN - delay_secs {
            now + delay_secs
        } else {
            i64::MIN
        }
    }
}

/// In-memory session store, with the pending removals of canceled trades.
///
/// Sessions and pending removals live in one value so that a retake racing a
/// grace deadline never sees one updated without the other.
pub struct SessionManager {
    sessions: Vec<Session>,
    deferred_removals: Vec<DeferredRemoval>,
}

impl View for SessionManager {
    type V = SessionsView;

    closed spec fn view(&self) -> SessionsView {
        SessionsView {
            sessions: keyed(self.sessions@, session_key(), session_val()),
            deferred: keyed(self.deferred_removals@, deferral_key(), deferral_deadline()),
        }
    }
}

impl SessionManager {
    /// The store is well formed: one record per order id in each list.
    pub closed spec fn wf(&self) -> bool {
        &&& distinct_keys(self.sessions@, session_key())
        &&& distinct_keys(self.deferred_removals@, deferral_key())
    }

    /// A well-formed store keeps every session under its own order id.
    pub proof fn lemma_keys_match(&self)
        requires
            self.wf(),
        ensures
            self@.keys_match(),
    {
        assert forall|k: Seq<char>| #[trigger] self@.sessions.dom().contains(k) implies self@.sessions[k].order_id@ == k by {
            lemma_keyed_value(self.sessions@, session_key(), session_val(), k);
        }
    }

    /// An empty store.
    pub fn new() -> (r: Self)
        ensures
            r.wf(),
            r@.sessions == Map::<Seq<char>, Session>::empty(),
            r@.deferred == Map::<Seq<char>, i64>::empty(),
    {
        let r = SessionManager { sessions: Vec::new(), deferred_removals: Vec::new() };
        assert(r.sessions@.len() == 0);
        r
    }

    fn find_session(&self, order_id: &String) -> (r: Option<usize>)
        requires
            self.wf(),
        ensures
            match r {
                Some(i) => i < self.sessions@.len() && self.sessions@[i as int].order_id@ == order_id@,
                None => !self@.sessions.dom().contains(order_id@),
            },
    {
        let mut i: usize = 0;
        while i < self.sessions.len()
            invariant
                i <= self.sessions@.len(),
                forall|j: int| 0 <= j < i ==> (#[trigger] self.sessions@[j]).order_id@ != order_id@,
            decreases self.sessions@.len() - i,
        {
            if self.sessions[i].order_id == *order_id {
                return Some(i);
            }
            i += 1;
        }
        proof {
            lemma_keyed_absent(self.sessions@, session_key(), session_val(), order_id@);
        }
        None
    }

    fn find_deferral(&self, order_id: &String) -> (r: Option<usize>)
        requires
            self.wf(),
        ensures
            match r {
                Some(i) => i < self.deferred_removals@.len()
                    && self.deferred_removals@[i as int].order_id@ == order_id@,
                None => !self@.deferred.dom().contains(order_id@),
            },
    {
        let mut i: usize = 0;
        while i < self.deferred_removals.len()
            invariant
                i <= self.deferred_removals@.len(),
                forall|j: int|
                    0 <= j < i ==> (#[trigger] self.deferred_removals@[j]).order_id@ != order_id@,
            decreases self.deferred_removals@.len() - i,
        {
            if self.deferred_removals[i].order_id == *order_id {
                return Some(i);
            }
            i += 1;
        }
        proof {
            lemma_keyed_absent(
                self.deferred_removals@,
                deferral_key(),
                deferral_deadline(),
                order_id@,
            );
        }
        None
    }

    /// Drops the session for `order_id`, if any; the pending removals stay.
    fn drop_session(&mut self, order_id: &String)
        requires
            old(self).wf(),
        ensures
            final(self).wf(),
            final(self)@.sessions == old(self)@.sessions.remove(order_id@),
            final(self).deferred_removals == old(self).deferred_removals,
    {
        match self.find_session(order_id) {
            Some(i) => {
                proof {
                    lemma_keyed_remove(self.sessions@, session_key(), session_val(), i as int);
                }
                self.sessions.remove(i);
            },
            None => {
                assert(old(self)@.sessions.remove(order_id@) =~= old(self)@.sessions);
            },
        }
    }

    /// Drops the pending removal for `order_id`, reporting whether there was one.
    fn drop_deferral(&mut self, order_id: &String) -> (was_deferred: bool)
        requires
            old(self).wf(),
        ensures
            final(self).wf(),
            was_deferred == old(self)@.deferred.dom().contains(order_id@),
            final(self)@.deferred == old(self)@.deferred.remove(order_id@),
            final(self).sessions == old(self).sessions,
    {
        match self.find_deferral(order_id) {
            Some(i) => {
                proof {
                    lemma_keyed_remove(
                        self.deferred_removals@,
                        deferral_key(),
                        deferral_deadline(),
                        i as int,
                    );
                    lemma_keyed_at(
                        self.deferred_removals@,
                        deferral_key(),
                        deferral_deadline(),
                        i as int,
                    );
                }
                self.deferred_removals.remove(i);
                true
            },
            None => {
                assert(old(self)@.deferred.remove(order_id@) =~= old(self)@.deferred);
                false
            },
        }
    }

    /// Creates the session for a trade taken at time `now`.
    ///
    /// Refused when `order_id` differs from `order.id`, and when a live
    /// session already exists for the order (duplicate processing). A session
    /// awaiting deferred removal belongs to a canceled take: the new one
    /// supersedes it, deadline included.
    pub fn create_session(
        &mut self,
        order_id: String,
        role: TradeRole,
        trade_key_index: u32,
        order: OrderInfo,
        now: i64,
    ) -> (r: Result<Session, SessionError>)
        requires
            old(self).wf(),
        ensures
            final(self).wf(),
            r == old(self)@.create_outcome(order_id, role, trade_key_index, order, now),
            final(self)@ == old(self)@.after_create(r),
            r is Ok <==> order_id@ == order.id@ && (old(self)@.deferred.contains_key(order_id@)
                || !old(self)@.sessions.contains_key(order_id@)),
            r matches Ok(s) ==> {
                &&& s.order_id == order_id
                &&& s.role == role
                &&& s.trade_key_index == trade_key_index
                &&& s.order == order
                &&& s.created_at == now
                &&& s.shared_key is None
                &&& s.admin_shared_key is None
                &&& s.peer_pubkey is None
                &&& final(self)@.sessions.contains_key(order_id@)
                &&& final(self)@.sessions[order_id@] == s
                &&& !final(self)@.deferred.contains_key(order_id@)
            },
            r is Err ==> final(self)@ == old(self)@,
    {
        if order_id != order.id {
            return Err(SessionError::OrderIdMismatch { param: order_id, order_id: order.id });
        }
        let was_deferred = self.drop_deferral(&order_id);
        if was_deferred {
            self.drop_session(&order_id);
        }
        if let Some(i) = self.find_session(&order_id) {
            proof {
                lemma_keyed_at(self.sessions@, session_key(), session_val(), i as int);
            }
            assert(!was_deferred);
            assert(self@.deferred =~= old(self)@.deferred);
            return Err(SessionError::SessionAlreadyExists(order_id));
        }
        let ghost mid = self@;
        let session = Session {
            order_id,
            role,
            trade_key_index,
            shared_key: None,
            admin_shared_key: None,
            peer_pubkey: None,
            order,
            created_at: now,
        };
        let stored = session.duplicate();
        proof {
            lemma_keyed_push(self.sessions@, session_key(), session_val(), stored);
        }
        self.sessions.push(stored);
        assert(self@.sessions =~= old(self)@.sessions.insert(session.order_id@, session));
        assert(self@.deferred =~= old(self)@.deferred.remove(session.order_id@));
        Ok(session)
    }

    /// Replaces the session for `order_id` with `session`.
    ///
    /// Refused when `session` belongs to another order, and when no session
    /// exists for the order.
    pub fn update_session(&mut self, order_id: &str, session: Session) -> (r: Result<(), SessionError>)
        requires
            old(self).wf(),
        ensures
            final(self).wf(),
            session.order_id@ != order_id@ ==> (match r {
                Err(SessionError::SessionOrderIdMismatch { param, session_order_id }) => param@
                    == order_id@ && session_order_id == session.order_id,
                _ => false,
            }),
            session.order_id@ == order_id@ && !old(self)@.sessions.contains_key(order_id@) ==> (
            r matches Err(SessionError::SessionNotFound(None))),
            session.order_id@ == order_id@ && old(self)@.sessions.contains_key(order_id@) ==> r
                is Ok,
            r is Ok ==> final(self)@.sessions == old(self)@.sessions.insert(order_id@, session),
            r is Err ==> final(self)@.sessions == old(self)@.sessions,
            final(self)@.deferred == old(self)@.deferred,
    {
        let key = String::from_str(order_id);
        if session.order_id != key {
            return Err(
                SessionError::SessionOrderIdMismatch {
                    param: key,
                    session_order_id: session.order_id,
                },
            );
        }
        match self.find_session(&key) {
            None => Err(SessionError::SessionNotFound(None)),
            Some(i) => {
                proof {
                    lemma_keyed_at(self.sessions@, session_key(), session_val(), i as int);
                    lemma_keyed_update(self.sessions@, session_key(), session_val(), i as int, session);
                }
                self.sessions.set(i, session);
                Ok(())
            },
        }
    }

    /// A copy of the session for `order_id`, if there is one.
    pub fn get_session(&self, order_id: &str) -> (r: Option<Session>)
        requires
            self.wf(),
        ensures
            r == (if self@.sessions.contains_key(order_id@) {
                Some(self@.sessions[order_id@])
            } else {
                None
            }),
            r matches Some(s) ==> s.order_id@ == order_id@,
    {
        let key = String::from_str(order_id);
        match self.find_session(&key) {
            Some(i) => {
                proof {
                    lemma_keyed_at(self.sessions@, session_key(), session_val(), i as int);
                }
                Some(self.sessions[i].duplicate())
            },
            None => None,
        }
    }

    /// Removes the session for `order_id` (completion, cancellation or
    /// timeout), together with any removal pending for it.
    pub fn remove_session(&mut self, order_id: &str)
        requires
            old(self).wf(),
        ensures
            final(self).wf(),
            final(self)@ == old(self)@.removed(order_id@),
    {
        let key = String::from_str(order_id);
        self.drop_deferral(&key);
        self.drop_session(&key);
    }

    /// Schedules the removal of the session for `order_id` at `deadline`,
    /// replacing any earlier schedule for it.
    pub fn defer_removal_until(&mut self, order_id: &str, deadline: i64)
        requires
            old(self).wf(),
        ensures
            final(self).wf(),
            final(self)@ == old(self)@.deferred_until(order_id@, deadline),
    {
        let key = String::from_str(order_id);
        let entry = DeferredRemoval { order_id: key.clone(), deadline };
        match self.find_deferral(&key) {
            Some(i) => {
                proof {
                    lemma_keyed_update(
                        self.deferred_removals@,
                        deferral_key(),
                        deferral_deadline(),
                        i as int,
                        entry,
                    );
                }
                self.deferred_removals.set(i, entry);
            },
            None => {
                proof {
                    lemma_keyed_push(
                        self.deferred_removals@,
                        deferral_key(),
                        deferral_deadline(),
                        entry,
                    );
                }
                self.deferred_removals.push(entry);
            },
        }
    }

    /// Schedules the removal of the session for `order_id` at `delay_secs`
    /// after `now`. A deadline beyond the range of `i64` is held at its bound.
    pub fn defer_removal(&mut self, order_id: &str, delay_secs: i64, now: i64)
        requires
            old(self).wf(),
        ensures
            final(self).wf(),
            final(self)@ == old(self)@.deferred_until(order_id@, clamped_deadline(now, delay_secs)),
    {
        let deadline = deadline_after(now, delay_secs);
        self.defer_removal_until(order_id, deadline);
    }

    /// Settles a deferred removal early: drops the session and reports `true`
    /// when a removal was pending for `order_id`; otherwise leaves everything
    /// untouched and reports `false`.
    pub fn resolve_deferred_removal(&mut self, order_id: &str) -> (was_deferred: bool)
        requires
            old(self).wf(),
        ensures
            final(self).wf(),
            was_deferred == old(self)@.deferred.contains_key(order_id@),
            final(self)@ == old(self)@.resolved(order_id@),
    {
        let key = String::from_str(order_id);
        let was_deferred = self.drop_deferral(&key);
        if was_deferred {
            self.drop_session(&key);
        } else {
            assert(self@.deferred =~= old(self)@.deferred);
        }
        was_deferred
    }

    /// Stores the ECDH admin shared key for the dispute chat of `order_id`.
    pub fn set_admin_shared_key(&mut self, order_id: &str, key: [u8; 32]) -> (r: Result<
        (),
        SessionError,
    >)
        requires
            old(self).wf(),
        ensures
            final(self).wf(),
            final(self)@.deferred == old(self)@.deferred,
            old(self)@.sessions.contains_key(order_id@) ==> r is Ok && final(self)@.sessions
                == old(self)@.sessions.insert(
                order_id@,
                Session { admin_shared_key: Some(key), ..old(self)@.sessions[order_id@] },
            ),
            !old(self)@.sessions.contains_key(order_id@) ==> final(self)@.sessions == old(
                self,
            )@.sessions && (match r {
                Err(SessionError::SessionNotFound(Some(id))) => id@ == order_id@,
                _ => false,
            }),
    {
        let id = String::from_str(order_id);
        match self.find_session(&id) {
            None => Err(SessionError::SessionNotFound(Some(id))),
            Some(i) => {
                proof {
                    lemma_keyed_at(self.sessions@, session_key(), session_val(), i as int);
                }
                let mut session = self.sessions[i].duplicate();
                session.admin_shared_key = Some(key);
                proof {
                    lemma_keyed_update(self.sessions@, session_key(), session_val(), i as int, session);
                }
                self.sessions.set(i, session);
                Ok(())
            },
        }
    }

    /// Drops every session whose removal deadline has been reached at `now`,
    /// with its pending removal; the removals still pending stay.
    pub fn reconcile_deferred_removals(&mut self, now: i64)
        requires
            old(self).wf(),
        ensures
            final(self).wf(),
            final(self)@ == old(self)@.reconciled(now),
    {
        let ghost m0 = self@;
        let mut i: usize = 0;
        while i < self.deferred_removals.len()
            invariant
                self.wf(),
                i <= self.deferred_removals@.len(),
                forall|j: int|
                    0 <= j < i ==> !(now >= (#[trigger] self.deferred_removals@[j]).deadline),
                forall|k: Seq<char>| #[trigger]
                    self@.deferred.contains_key(k) ==> m0.deferred.contains_key(k)
                        && self@.deferred[k] == m0.deferred[k],
                forall|k: Seq<char>|
                    #[trigger] m0.deferred.contains_key(k) && !(now >= m0.deferred[k])
                        ==> self@.deferred.contains_key(k),
                self@.sessions == m0.sessions.remove_keys(
                    m0.due(now).difference(self@.deferred.dom()),
                ),
            decreases self.deferred_removals@.len() - i,
        {
            if now >= self.deferred_removals[i].deadline {
                let ghost before = self@;
                let ghost k = self.deferred_removals@[i as int].order_id@;
                proof {
                    lemma_keyed_at(
                        self.deferred_removals@,
                        deferral_key(),
                        deferral_deadline(),
                        i as int,
                    );
                    lemma_keyed_remove(
                        self.deferred_removals@,
                        deferral_key(),
                        deferral_deadline(),
                        i as int,
                    );
                }
                let entry = self.deferred_removals.remove(i);
                self.drop_session(&entry.order_id);
                assert(self@.deferred == before.deferred.remove(k));
                assert(m0.due(now).difference(self@.deferred.dom()) =~= m0.due(now).difference(
                    before.deferred.dom(),
                ).insert(k));
                assert(self@.sessions =~= m0.sessions.remove_keys(
                    m0.due(now).difference(self@.deferred.dom()),
                ));
            } else {
                i += 1;
            }
        }
        proof {
            assert forall|k: Seq<char>| #[trigger]
                self@.deferred.contains_key(k) implies !m0.due(now).contains(k) by {
                let j = lemma_keyed_value(
                    self.deferred_removals@,
                    deferral_key(),
                    deferral_deadline(),
                    k,
                );
                assert(!(now >= self.deferred_removals@[j].deadline));
            }
            assert(m0.due(now).difference(self@.deferred.dom()) =~= m0.due(now));
            assert(self@.deferred =~= m0.deferred.remove_keys(m0.due(now)));
        }
    }

    /// Drops the sessions that are older than `timeout_secs` at `now` and
    /// have no shared key, i.e. whose take the daemon never acknowledged. A
    /// session exactly `timeout_secs` old stays.
    pub fn cleanup_stale_sessions(&mut self, timeout_secs: i64, now: i64)
        requires
            old(self).wf(),
        ensures
            final(self).wf(),
            final(self)@ == old(self)@.cleaned(now, timeout_secs),
            final(self)@.deferred == old(self)@.deferred,
            forall|k: Seq<char>| #[trigger]
                final(self)@.sessions.contains_key(k) <==> old(self)@.sessions.contains_key(k) && (
                old(self)@.sessions[k].shared_key is Some || now - old(self)@.sessions[k].created_at
                    <= timeout_secs),
            forall|k: Seq<char>| #[trigger]
                final(self)@.sessions.contains_key(k) ==> final(self)@.sessions[k] == old(
                    self,
                )@.sessions[k],
    {
        let ghost m0 = self@;
        let mut i: usize = 0;
        while i < self.sessions.len()
            invariant
                self.wf(),
                i <= self.sessions@.len(),
                self@.deferred == m0.deferred,
                forall|j: int|
                    0 <= j < i ==> !is_stale(#[trigger] self.sessions@[j], now, timeout_secs),
                forall|k: Seq<char>| #[trigger]
                    self@.sessions.contains_key(k) ==> m0.sessions.contains_key(k)
                        && self@.sessions[k] == m0.sessions[k],
                forall|k: Seq<char>|
                    #[trigger] m0.sessions.contains_key(k) && !is_stale(
                        m0.sessions[k],
                        now,
                        timeout_secs,
                    ) ==> self@.sessions.contains_key(k),
            decreases self.sessions@.len() - i,
        {
            let stale = self.sessions[i].shared_key.is_none() && (now as i128)
                - (self.sessions[i].created_at as i128) > (timeout_secs as i128);
            if stale {
                let ghost before = self@;
                let ghost k = self.sessions@[i as int].order_id@;
                proof {
                    lemma_keyed_at(self.sessions@, session_key(), session_val(), i as int);
                    lemma_keyed_remove(self.sessions@, session_key(), session_val(), i as int);
                }
                self.sessions.remove(i);
                assert(self@.sessions == before.sessions.remove(k));
            } else {
                i += 1;
            }
        }
        proof {
            assert forall|k: Seq<char>| #[trigger]
                self@.sessions.contains_key(k) implies !m0.stale(now, timeout_secs).contains(k) by {
                let j = lemma_keyed_value(self.sessions@, session_key(), session_val(), k);
                assert(!is_stale(self.sessions@[j], now, timeout_secs));
            }
            assert(self@.sessions =~= m0.sessions.remove_keys(m0.stale(now, timeout_secs)));
        }
    }
}

impl Default for SessionManager {
    /// An empty store, as [`SessionManager::new`].
    fn default() -> (r: Self)
        ensures
            r.wf(),
            r@.sessions == Map::<Seq<char>, Session>::empty(),
            r@.deferred == Map::<Seq<char>, i64>::empty(),
    {
        Self::new()
    }
}

} // verus!
