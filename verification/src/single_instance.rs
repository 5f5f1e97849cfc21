//! Keeping to one running instance: where the lock file lies and the name of
//! the notification by which a second launch asks the first to come forward.

use vstd::prelude::*;

use crate::chars::{chars_of, string_of};
use crate::login_item::LOGIN_ITEM_LABEL;
use crate::path::{join_path, joined_path, lemma_beside, parent, parent_path, path_components};

verus! {

/// The distributed notification that asks the running instance to come
/// forward. The notification center is shared by the whole system, so the
/// name starts with the bundle identifier.
pub const ACTIVATE_NOTIFICATION: &'static str = "io.github.somei-san.cliip-show.activate";

/// The lock file's name.
pub const LOCK_FILE_NAME: &'static str = ".instance-lock";

/// The notification name lies in the bundle identifier's namespace.
pub proof fn lemma_notification_is_namespaced()
    ensures
        ACTIVATE_NOTIFICATION@.len() > LOGIN_ITEM_LABEL@.len(),
        ACTIVATE_NOTIFICATION@.take(LOGIN_ITEM_LABEL@.len() as int) == LOGIN_ITEM_LABEL@,
{
    reveal_strlit("io.github.somei-san.cliip-show.activate");
    reveal_strlit("io.github.somei-san.cliip-show");
    assert(ACTIVATE_NOTIFICATION@.take(LOGIN_ITEM_LABEL@.len() as int) =~= LOGIN_ITEM_LABEL@);
}

/// The lock file for the config file at `config_path`: `LOCK_FILE_NAME` in
/// the same directory; `None` when that path has no parent.
pub fn lock_path(config_path: &str) -> (r: Option<String>)
    ensures
        match (r, parent_path(config_path@)) {
            (Some(a), Some(dir)) => a@ == joined_path(dir, LOCK_FILE_NAME@),
            (None, None) => true,
            _ => false,
        },
{
    match parent(chars_of(config_path).as_slice()) {
        None => None,
        Some(dir) => {
            let p = join_path(dir.as_slice(), chars_of(LOCK_FILE_NAME).as_slice());
            Some(string_of(p.as_slice()))
        },
    }
}

/// The lock lies beside the config file: in the same directory, under
/// `LOCK_FILE_NAME`.
pub proof fn lemma_lock_beside_config(config_path: Seq<char>)
    requires
        parent_path(config_path) is Some,
    ensures
        parent_path(joined_path(parent_path(config_path)->0, LOCK_FILE_NAME@)) == parent_path(
            config_path,
        ),
        path_components(joined_path(parent_path(config_path)->0, LOCK_FILE_NAME@)).last()
            == LOCK_FILE_NAME@,
{
    reveal_strlit(".instance-lock");
    let n = LOCK_FILE_NAME@;
    assert(!n.contains('/')) by {
        if n.contains('/') {
            let i = choose|i: int| 0 <= i < n.len() && n[i] == '/';
        }
    }
    assert(n != seq!['.']) by {
        assert(n.len() != 1);
    }
    lemma_beside(config_path, n);
}

} // verus!
