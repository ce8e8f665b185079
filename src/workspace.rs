use vstd::prelude::*;
use crate::paths::{join, join_path};

verus! {

/// A character of nanoid's URL-safe alphabet: `_`, `-`, a digit or an ASCII
/// letter.
pub open spec fn is_id_char(c: char) -> bool {
    c == '_' || c == '-' || (48 <= (c as u32) <= 57) || (97 <= (c as u32) <= 122) || (65 <= (c as u32)
        <= 90)
}

/// Length of the random part of a workspace's name.
pub const ID_LEN: usize = 8;

/// Relies on nanoid::format with nanoid::rngs::default and
/// nanoid::alphabet::SAFE: a string of `size` characters, each drawn from the
/// URL-safe alphabet (which is ASCII, so the byte length it counts is the
/// character count). It never returns for a size of 0.
#[verifier::external_body]
fn random_id(size: usize) -> (r: String)
    requires
        0 < size <= 1024,
    ensures
        r@.len() == size,
        forall|i: int| 0 <= i < size ==> is_id_char(#[trigger] r@[i]),
{
    nanoid::format(nanoid::rngs::default, &nanoid::alphabet::SAFE, size)
}

/// A fresh workspace path inside `temp_root`, named by eight random
/// URL-safe characters, so that runs do not share one.
pub fn create_tmp_dir(temp_root: &str) -> (r: String)
    ensures
        exists|id: Seq<char>|
            id.len() == ID_LEN && (forall|i: int| 0 <= i < id.len() ==> is_id_char(#[trigger] id[i]))
                && r@ == join_path(temp_root@, id),
{
    let id = random_id(ID_LEN);
    let r = join(temp_root, id.as_str());
    assert(id@.len() == ID_LEN && (forall|i: int| 0 <= i < id@.len() ==> is_id_char(#[trigger] id@[i])));
    r
}

/// The directory inside a workspace that holds re-encoded copies.
pub fn create_dir_for_fps_changer(base: &str) -> (r: String)
    ensures
        r@ == join_path(base@, "fps_changer"@),
{
    join(base, "fps_changer")
}

/// Where the manifest is written: inside the workspace where there is one,
/// else in the target directory; its name is hidden, so that a scan never
/// takes it.
pub fn manifest_path(target_dir: &str, workspace: &Option<String>) -> (r: String)
    ensures
        r@ == join_path(
            match workspace {
                Some(w) => w@,
                None => target_dir@,
            },
            ".merge_list.txt"@,
        ),
{
    match workspace {
        Some(w) => join(w.as_str(), ".merge_list.txt"),
        None => join(target_dir, ".merge_list.txt"),
    }
}

} // verus!
