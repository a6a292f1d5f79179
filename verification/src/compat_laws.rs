//! Laws of compatibility: what each mode refuses and what it leaves out.
use vstd::prelude::*;
use crate::json::{json_text, Json, JsonField};
use crate::rpc_compat::{
    asked_keys, call_fault, is_aria2_key, is_extended_key, keeps, kept_fields, kind_of, projected, stripped, Keep,
    RpcCompatibility,
};

verus! {

/// A method is answered alike with and without the prefix of aria2.
pub proof fn law_methods_are_known_by_both_names()
    ensures
        kind_of("aria2.tellStatus"@) is One && kind_of("tellStatus"@) is One,
        kind_of("aria2.tellActive"@) is Active && kind_of("tellActive"@) is Active,
        kind_of("aria2.tellWaiting"@) is Range && kind_of("tellWaiting"@) is Range,
        kind_of("aria2.tellStopped"@) is Range && kind_of("tellStopped"@) is Range,
        kind_of("aria2.getOption"@) is Options && kind_of("getOption"@) is Options,
        kind_of("aria2.getGlobalOption"@) is Options && kind_of("getGlobalOption"@) is Options,
{
    reveal_strlit("aria2.tellStatus");
    reveal_strlit("tellStatus");
    reveal_strlit("aria2.tellActive");
    reveal_strlit("tellActive");
    reveal_strlit("aria2.tellWaiting");
    reveal_strlit("tellWaiting");
    reveal_strlit("aria2.tellStopped");
    reveal_strlit("tellStopped");
    reveal_strlit("aria2.getOption");
    reveal_strlit("getOption");
    reveal_strlit("aria2.getGlobalOption");
    reveal_strlit("getGlobalOption");
    assert("aria2.tellStatus"@.len() == 16 && "aria2.tellStatus"@[10] == 'S');
    assert("aria2.tellActive"@.len() == 16 && "aria2.tellActive"@[10] == 'A');
    assert("tellStatus"@.len() == 10 && "tellStatus"@[4] == 'S');
    assert("tellActive"@.len() == 10 && "tellActive"@[4] == 'A');
    assert("aria2.tellWaiting"@.len() == 17);
    assert("aria2.tellStopped"@.len() == 17);
    assert("tellWaiting"@.len() == 11);
    assert("tellStopped"@.len() == 11);
    assert("aria2.getOption"@.len() == 15);
    assert("getOption"@.len() == 9);
    assert("aria2.getGlobalOption"@.len() == 21);
    assert("getGlobalOption"@.len() == 15 && "getGlobalOption"@[0] == 'g');
    assert("aria2.getOption"@[0] == 'a');
}

/// Only the strict mode refuses a call: one of a method that is not among those it knows, or
/// one that asks for a key that no status has.
pub proof fn law_only_the_strict_mode_refuses(
    mode: RpcCompatibility,
    methods: Seq<String>,
    method: Seq<char>,
    params: Json,
)
    ensures
        !(mode is Strict) ==> call_fault(mode, methods, method, params) is None,
        mode is Strict && !(exists|i: int| 0 <= i < methods.len() && (#[trigger] methods[i])@ == method)
            ==> call_fault(mode, methods, method, params) is Some && call_fault(mode, methods, method, params)->0.code
            == -32601,
        mode is Strict && (exists|i: int| 0 <= i < methods.len() && (#[trigger] methods[i])@ == method) ==> {
            &&& asked_keys(method, params) is None ==> call_fault(mode, methods, method, params) is None
            &&& asked_keys(method, params) matches Some(keys) ==> {
                let known = forall|i: int|
                    0 <= i < keys.len() ==> json_text(#[trigger] keys[i]) is Some && (is_aria2_key(
                        json_text(keys[i])->0,
                    ) || is_extended_key(json_text(keys[i])->0));
                &&& known ==> call_fault(mode, methods, method, params) is None
                &&& !known ==> call_fault(mode, methods, method, params) is Some && call_fault(
                    mode,
                    methods,
                    method,
                    params,
                )->0.code == -32602
            }
        },
{
    if let Some(keys) = asked_keys(method, params) {
        assert forall|i: int| 0 <= i < keys.len() implies crate::rpc_compat::names_key(#[trigger] keys[i]) == (
        json_text(keys[i]) is Some && (is_aria2_key(json_text(keys[i])->0) || is_extended_key(
            json_text(keys[i])->0,
        ))) by {
        }
        let known = forall|i: int|
            0 <= i < keys.len() ==> json_text(#[trigger] keys[i]) is Some && (is_aria2_key(json_text(keys[i])->0)
                || is_extended_key(json_text(keys[i])->0));
        assert(known == crate::rpc_compat::all_named(keys)) by {
            if known {
                assert forall|i: int| 0 <= i < keys.len() implies crate::rpc_compat::names_key(#[trigger] keys[i]) by {
                    assert(json_text(keys[i]) is Some);
                }
            }
            if crate::rpc_compat::all_named(keys) {
                assert forall|i: int| 0 <= i < keys.len() implies json_text(#[trigger] keys[i]) is Some && (is_aria2_key(
                    json_text(keys[i])->0,
                ) || is_extended_key(json_text(keys[i])->0)) by {
                    assert(crate::rpc_compat::names_key(keys[i]));
                }
            }
        }
    }
}

/// Of fields, those are kept that are to be kept, each as it was, in their order.
proof fn lemma_kept(fields: Seq<JsonField>, keep: Keep, available: Seq<String>, n: int)
    requires
        0 <= n <= fields.len(),
    ensures
        ({
            let kept = kept_fields(fields, keep, available, n);
            &&& forall|k: int|
                0 <= k < kept.len() ==> keeps(keep, available, (#[trigger] kept[k]).name@) && exists|i: int|
                    0 <= i < n && fields[i] == kept[k]
            &&& forall|i: int|
                0 <= i < n && keeps(keep, available, (#[trigger] fields[i]).name@) ==> kept.contains(fields[i])
        }),
    decreases n,
{
    if n > 0 {
        lemma_kept(fields, keep, available, n - 1);
        let before = kept_fields(fields, keep, available, n - 1);
        let kept = kept_fields(fields, keep, available, n);
        assert forall|k: int| 0 <= k < kept.len() implies keeps(keep, available, (#[trigger] kept[k]).name@)
            && exists|i: int| 0 <= i < n && fields[i] == kept[k] by {
            if k < before.len() {
                assert(kept[k] == before[k]);
                let i = choose|i: int| 0 <= i < n - 1 && fields[i] == before[k];
                assert(0 <= i < n && fields[i] == kept[k]);
            } else {
                assert(fields[n - 1] == kept[k]);
            }
        }
        assert forall|i: int| 0 <= i < n && keeps(keep, available, (#[trigger] fields[i]).name@) implies kept.contains(
            fields[i],
        ) by {
            if i < n - 1 {
                let at = before.index_of(fields[i]);
                assert(kept[at] == fields[i]);
            } else {
                assert(kept[before.len() as int] == fields[i]);
            }
        }
    }
}

/// Whether an object holds those fields of another that pass, and no others.
pub open spec fn holds_only(before: Seq<JsonField>, after: Seq<JsonField>, passes: spec_fn(Seq<char>) -> bool) -> bool {
    &&& forall|k: int| 0 <= k < after.len() ==> passes((#[trigger] after[k]).name@) && before.contains(after[k])
    &&& forall|i: int| 0 <= i < before.len() && passes((#[trigger] before[i]).name@) ==> after.contains(before[i])
}

/// The extended mode leaves nothing out. The others leave out of a status that was asked for
/// without keys what aria2 does not have, and of options those that cannot be set; all
/// else passes as it is.
pub proof fn law_modes_leave_out_what_aria2_does_not_have(
    mode: RpcCompatibility,
    method: Seq<char>,
    explicit_keys: bool,
    available: Seq<String>,
    before: Json,
    after: Json,
)
    requires
        projected(mode, method, explicit_keys, available, before, after),
    ensures
        mode is Extended ==> after == before,
        kind_of(method) is Other ==> after == before,
        explicit_keys && !(kind_of(method) is Options) ==> after == before,
        !(mode is Extended) && !explicit_keys && kind_of(method) is One && before is Object ==> after is Object
            && holds_only(before->Object_0@, after->Object_0@, |name: Seq<char>| is_aria2_key(name)),
        !(mode is Extended) && kind_of(method) is Options && before is Object ==> after is Object && holds_only(
            before->Object_0@,
            after->Object_0@,
            |name: Seq<char>| exists|i: int| 0 <= i < available.len() && (#[trigger] available[i])@ == name,
        ),
        !(mode is Extended) && !explicit_keys && (kind_of(method) is Active || kind_of(method) is Range) && before
            is Array ==> after is Array && after->Array_0@.len() == before->Array_0@.len() && forall|i: int|
            0 <= i < before->Array_0@.len() && (#[trigger] before->Array_0@[i]) is Object ==> after->Array_0@[i]
                is Object && holds_only(
                before->Array_0@[i]->Object_0@,
                after->Array_0@[i]->Object_0@,
                |name: Seq<char>| is_aria2_key(name),
            ),
{
    if before is Object && after is Object {
        let fields = before->Object_0@;
        lemma_kept(fields, Keep::Status, available, fields.len() as int);
        lemma_kept(fields, Keep::Options, available, fields.len() as int);
    }
    if before is Array && after is Array {
        let items = before->Array_0@;
        assert forall|i: int|
            0 <= i < items.len() && (#[trigger] items[i]) is Object && !(mode is Extended) && !explicit_keys && (
            kind_of(method) is Active || kind_of(method) is Range) implies after->Array_0@[i] is Object && holds_only(
            items[i]->Object_0@,
            after->Array_0@[i]->Object_0@,
            |name: Seq<char>| is_aria2_key(name),
        ) by {
            let fields = items[i]->Object_0@;
            assert(stripped(items[i], after->Array_0@[i], Keep::Status, available));
            lemma_kept(fields, Keep::Status, available, fields.len() as int);
        }
    }
}

} // verus!
