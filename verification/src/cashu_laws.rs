//! Laws of the Cashu wallet decisions.

use vstd::prelude::*;

use crate::cashu::{path_join, store_path_beside_spec};

verus! {

/// The proof store sits beside the app database: whenever the database has
/// a non-empty parent directory `dir`, however long, the store is that
/// directory joined with `cashu.sqlite`; only with no parent, or the empty
/// parent of a bare name, is it the bare file name.
pub proof fn law_proof_store_sits_beside_the_database(parent: Option<Seq<char>>)
    ensures
        parent is Some && parent.unwrap().len() > 0 ==> store_path_beside_spec(parent) == path_join(
            parent.unwrap(),
            "cashu.sqlite"@,
        ),
        parent is None ==> store_path_beside_spec(parent) == "cashu.sqlite"@,
        parent is Some && parent.unwrap().len() == 0 ==> store_path_beside_spec(parent)
            == "cashu.sqlite"@,
{
}

} // verus!
