//! Decisions of the Cashu wallet surface: the escrow-mode guard, where the
//! proof store lives, what a connect must do, and the status the UI shows.
//!
//! Nothing Cashu runs on a Lightning node: every guarded entry point answers
//! `CashuNotEnabled` unless the active node was positively identified as a
//! Cashu node with a usable mint.

use vstd::prelude::*;

verus! {

/// Why a wallet operation was refused. The texts are stable markers that the
/// UI maps to localized strings.
#[derive(Debug, Clone, Copy, PartialEq, Eq, Structural)]
pub enum CashuError {
    /// The active node is not a usable Cashu node.
    NotEnabled,
    /// No wallet is connected.
    NotConnected,
    /// The app database is not initialised, so the proof store has no home.
    StoreUnavailable,
    /// No identity is loaded, so there is no seed for the wallet.
    NoIdentity,
}

impl CashuError {
    /// The error's text.
    pub open spec fn text(self) -> Seq<char> {
        match self {
            CashuError::NotEnabled => "CashuNotEnabled"@,
            CashuError::NotConnected => "CashuNotConnected"@,
            CashuError::StoreUnavailable => "CashuStoreUnavailable: database not initialised"@,
            CashuError::NoIdentity => "NoIdentity"@,
        }
    }

    /// The error's text, as [`Self::text`] states it.
    pub fn message(&self) -> (r: &'static str)
        ensures
            r@ == self.text(),
    {
        match self {
            CashuError::NotEnabled => "CashuNotEnabled",
            CashuError::NotConnected => "CashuNotConnected",
            CashuError::StoreUnavailable => "CashuStoreUnavailable: database not initialised",
            CashuError::NoIdentity => "NoIdentity",
        }
    }
}

/// Fail closed unless the active node was positively identified as Cashu.
pub fn ensure_enabled(cashu_mode: bool) -> (r: Result<(), CashuError>)
    ensures
        r == (if cashu_mode {
            Ok(())
        } else {
            Err(CashuError::NotEnabled)
        }),
{
    if !cashu_mode {
        return Err(CashuError::NotEnabled);
    }
    Ok(())
}

/// The guard of the balance, receive, send and reclaim entry points: the
/// escrow mode first, then a connected wallet.
pub fn ensure_wallet_ready(cashu_mode: bool, connected: bool) -> (r: Result<(), CashuError>)
    ensures
        r == (if !cashu_mode {
            Err(CashuError::NotEnabled)
        } else if !connected {
            Err(CashuError::NotConnected)
        } else {
            Ok(())
        }),
{
    ensure_enabled(cashu_mode)?;
    if !connected {
        return Err(CashuError::NotConnected);
    }
    Ok(())
}

/// The directory part of a path (`std::path::Path::parent`), under the path
/// rules of the platform the crate is built for.
pub uninterp spec fn path_parent(path: Seq<char>) -> Option<Seq<char>>;

/// A path extended by a relative one (`std::path::Path::join`), under the
/// path rules of the platform the crate is built for.
pub uninterp spec fn path_join(dir: Seq<char>, file: Seq<char>) -> Seq<char>;

/// The parent of `path` (`std::path::Path::parent`), as text. The input is
/// valid UTF-8 and a parent is a prefix of it, so the text conversion loses
/// nothing.
#[verifier::external_body]
fn parent_of(path: &str) -> (r: Option<String>)
    ensures
        match r {
            Some(d) => path_parent(path@) == Some(d@),
            None => path_parent(path@) is None,
        },
{
    match std::path::Path::new(path).parent() {
        Some(dir) => Some(dir.to_string_lossy().into_owned()),
        None => None,
    }
}

/// `dir` extended by `file` (`std::path::Path::join`), as text. Both inputs
/// are valid UTF-8, so the text conversion loses nothing.
#[verifier::external_body]
fn join_path(dir: &str, file: &str) -> (r: String)
    ensures
        r@ == path_join(dir@, file@),
{
    std::path::Path::new(dir).join(file).to_string_lossy().into_owned()
}

/// The file name of the proof store.
pub open spec fn store_file() -> Seq<char> {
    "cashu.sqlite"@
}

/// Where the proof store lives given the parent directory of the app
/// database: beside it; with no usable directory (none, or the empty one of
/// a bare name such as an IndexedDB database name), the bare file name.
pub open spec fn store_path_beside_spec(parent: Option<Seq<char>>) -> Seq<char> {
    match parent {
        Some(dir) => if dir.len() > 0 {
            path_join(dir, store_file())
        } else {
            store_file()
        },
        None => store_file(),
    }
}

/// Where the proof store lives given the parent directory of the app
/// database, as [`store_path_beside_spec`] states it.
pub fn store_path_beside(parent: Option<String>) -> (r: String)
    ensures
        r@ == store_path_beside_spec(
            match parent {
                Some(d) => Some(d@),
                None => None,
            },
        ),
        parent is Some && parent.unwrap()@.len() > 0 ==> r@ == path_join(
            parent.unwrap()@,
            "cashu.sqlite"@,
        ),
        parent is None ==> r@ == "cashu.sqlite"@,
        parent is Some && parent.unwrap()@.len() == 0 ==> r@ == "cashu.sqlite"@,
{
    match parent {
        Some(dir) => if !dir.as_str().is_empty() {
            join_path(dir.as_str(), "cashu.sqlite")
        } else {
            String::from_str("cashu.sqlite")
        },
        None => String::from_str("cashu.sqlite"),
    }
}

/// Where the proof store lives: a sibling of the app database at `app_db`,
/// never inside it, so that the wallet's schema and migrations never share a
/// file with the app's. Without an app database there is nowhere to put it.
pub fn proof_store_path(app_db: Option<&str>) -> (r: Result<String, CashuError>)
    ensures
        match app_db {
            None => r == Err::<String, _>(CashuError::StoreUnavailable),
            Some(db) => r matches Ok(p) && p@ == store_path_beside_spec(path_parent(db@)),
        },
        app_db is Some && path_parent(app_db.unwrap()@) is Some && path_parent(
            app_db.unwrap()@,
        ).unwrap().len() > 0 ==> (r matches Ok(p) && p@ == path_join(
            path_parent(app_db.unwrap()@).unwrap(),
            "cashu.sqlite"@,
        )),
{
    match app_db {
        None => Err(CashuError::StoreUnavailable),
        Some(db) => Ok(store_path_beside(parent_of(db))),
    }
}

/// What the UI is told about the wallet.
#[derive(Debug, Clone)]
pub struct CashuWalletStatus {
    pub connected: bool,
    pub mint_url: Option<String>,
    /// `None` when the balance could not be read: "unknown", never zero.
    pub balance_sats: Option<u64>,
    pub missing_capabilities: Vec<String>,
}

/// The status with no wallet connected: a known zero balance, no mint.
pub fn disconnected_status() -> (r: CashuWalletStatus)
    ensures
        !r.connected,
        r.mint_url is None,
        r.balance_sats == Some(0u64),
        r.missing_capabilities@.len() == 0,
{
    CashuWalletStatus {
        connected: false,
        mint_url: None,
        balance_sats: Some(0),
        missing_capabilities: Vec::new(),
    }
}

/// The status of a connected wallet bound to `mint_url`. A failed balance
/// read is reported as unknown (`None`), never as zero: the wallet is still
/// connected, and a zero would read as "your money is gone".
pub fn connected_status<E>(
    mint_url: String,
    balance_read: Result<u64, E>,
    missing_capabilities: Vec<String>,
) -> (r: CashuWalletStatus)
    ensures
        r.connected,
        r.mint_url == Some(mint_url),
        r.balance_sats == match balance_read {
            Ok(b) => Some(b),
            Err(_) => None::<u64>,
        },
        r.missing_capabilities == missing_capabilities,
{
    CashuWalletStatus {
        connected: true,
        mint_url: Some(mint_url),
        balance_sats: match balance_read {
            Ok(b) => Some(b),
            Err(_) => None,
        },
        missing_capabilities,
    }
}

/// What a connect has to do once the escrow guard has let it through.
pub enum ConnectPlan {
    /// A wallet is already connected: report it as it is, no reconnection.
    Reuse,
    /// Open the wallet on the node's mint with its proof store at `store_path`.
    Open { mint_url: String, store_path: String },
}

/// Plans a connect: the escrow guard first; an already connected wallet is
/// reused; otherwise the node must still pin a mint (a concurrent node switch
/// may have cleared it), an identity must be loaded, and the proof store must
/// have a home.
pub fn plan_connect(
    cashu_mode: bool,
    already_connected: bool,
    mint_url: Option<String>,
    has_identity: bool,
    app_db: Option<&str>,
) -> (r: Result<ConnectPlan, CashuError>)
    ensures
        !cashu_mode ==> r matches Err(CashuError::NotEnabled),
        cashu_mode && already_connected ==> r matches Ok(ConnectPlan::Reuse),
        cashu_mode && !already_connected && mint_url is None ==> r matches Err(
            CashuError::NotEnabled,
        ),
        cashu_mode && !already_connected && mint_url is Some && !has_identity ==> r matches Err(
            CashuError::NoIdentity,
        ),
        cashu_mode && !already_connected && mint_url is Some && has_identity && app_db is None
            ==> r matches Err(CashuError::StoreUnavailable),
        cashu_mode && !already_connected && mint_url is Some && has_identity && app_db is Some
            ==> (r matches Ok(ConnectPlan::Open { mint_url: m, store_path: p }) && m
            == mint_url.unwrap() && p@ == store_path_beside_spec(path_parent(app_db.unwrap()@))),
{
    ensure_enabled(cashu_mode)?;
    if already_connected {
        return Ok(ConnectPlan::Reuse);
    }
    let mint_url = match mint_url {
        Some(m) => m,
        None => return Err(CashuError::NotEnabled),
    };
    if !has_identity {
        return Err(CashuError::NoIdentity);
    }
    let store_path = proof_store_path(app_db)?;
    Ok(ConnectPlan::Open { mint_url, store_path })
}

/// A reconcile with the mint changed the wallet, and the UI must be told,
/// exactly when something was reclaimed.
pub fn reclaim_changes_wallet(reclaimed_sats: u64) -> (r: bool)
    ensures
        r == (reclaimed_sats > 0),
{
    reclaimed_sats > 0
}

} // verus!
