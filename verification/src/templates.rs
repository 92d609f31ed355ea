//! The templated-message table: a string-keyed table of message texts,
//! seeded with the default templates and editable afterwards.
//!
//! The table is a plain value the caller holds; a hosting application
//! that shares it process-wide puts it behind a lock of its own.  Held as
//! a value, the editing operations always succeed, which the contracts
//! state.

use crate::strmap::StrMap;
use vstd::prelude::*;
use vstd::string::*;

verus! {

/// The table of message templates.
pub struct Templates {
    table: StrMap,
}

impl Templates {
    /// The table's invariant.
    pub closed spec fn wf(self) -> bool {
        self.table.wf()
    }

    /// What the key maps to, if anything.
    pub closed spec fn spec_get(self, k: Seq<char>) -> Option<Seq<char>> {
        self.table.spec_get(k)
    }

    /// The table with exactly the default templates bound.
    pub fn new() -> (r: Templates)
        ensures
            r.wf(),
            r.spec_get("not_found"@) == Some("指定されたリソースが見つかりませんでした"@),
            r.spec_get("permission_denied"@) == Some("権限がありません"@),
            r.spec_get("success"@) == Some("処理が正常に完了しました"@),
            r.spec_get("cancelled"@) == Some("操作がキャンセルされました"@),
            forall|k: Seq<char>|
                k != "not_found"@ && k != "permission_denied"@ && k != "success"@ && k
                    != "cancelled"@ ==> #[trigger] r.spec_get(k) is None,
    {
        proof {
            reveal_strlit("not_found");
            reveal_strlit("permission_denied");
            reveal_strlit("success");
            reveal_strlit("cancelled");
            assert("not_found"@.len() == 9);
            assert("permission_denied"@.len() == 17);
            assert("success"@.len() == 7);
            assert("cancelled"@.len() == 9);
            assert("not_found"@[0] == 'n' && "cancelled"@[0] == 'c');
            assert("not_found"@ != "permission_denied"@);
            assert("not_found"@ != "success"@);
            assert("not_found"@ != "cancelled"@);
            assert("permission_denied"@ != "success"@);
            assert("permission_denied"@ != "cancelled"@);
            assert("success"@ != "cancelled"@);
        }
        let mut table = StrMap::new();
        table.insert("not_found", "指定されたリソースが見つかりませんでした");
        table.insert("permission_denied", "権限がありません");
        table.insert("success", "処理が正常に完了しました");
        table.insert("cancelled", "操作がキャンセルされました");
        Templates { table }
    }
}

/// Binds `key` to `value`, replacing any earlier binding.  With the table
/// held as a value there is no lock to fail on, so the result is always
/// `Ok`.
pub fn add_template(templates: &mut Templates, key: &str, value: &str) -> (r: Result<(), String>)
    requires
        old(templates).wf(),
    ensures
        final(templates).wf(),
        r is Ok,
        final(templates).spec_get(key@) == Some(value@),
        forall|k: Seq<char>|
            k != key@ ==> #[trigger] final(templates).spec_get(k) == old(templates).spec_get(k),
{
    templates.table.insert(key, value);
    Ok(())
}

/// The template under `key`, if any, as a fresh copy.
pub fn get_template(templates: &Templates, key: &str) -> (r: Option<String>)
    requires
        templates.wf(),
    ensures
        (r matches Some(v) ==> templates.spec_get(key@) == Some(v@)),
        (r is None ==> templates.spec_get(key@) is None),
{
    match templates.table.get(key) {
        Some(v) => Some(v.clone()),
        None => None,
    }
}

/// Unbinds `key`, reporting whether it was bound.
pub fn remove_template(templates: &mut Templates, key: &str) -> (r: bool)
    requires
        old(templates).wf(),
    ensures
        final(templates).wf(),
        r == (old(templates).spec_get(key@) is Some),
        final(templates).spec_get(key@) is None,
        forall|k: Seq<char>|
            k != key@ ==> #[trigger] final(templates).spec_get(k) == old(templates).spec_get(k),
{
    templates.table.remove(key)
}

} // verus!
