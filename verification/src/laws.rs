//! The harness's cross-function guarantees, stated once over the spec-level
//! model that the executable functions' contracts use, and proved here.

use crate::cookies::cookie_header_text;
use crate::cookies::jar_after_merge;
use crate::cookies::jar_lookup;
use crate::cookies::jar_name_index;
use crate::cookies::jar_upsert;
use crate::cookies::jar_wf;
use crate::cookies::lemma_upsert;
use crate::cookies::merge_failure;
use crate::cookies::pair_text;
use crate::cookies::parsed_cookie;
use crate::request::joined_url;
use crate::request::scheme_prefix;
use crate::request::assembled_headers;
use crate::request::content_type_label;
use crate::request::cookie_label;
use crate::request::defaulted_content_type;
use crate::request::json_media_type;
use crate::request::RequestView;
use vstd::prelude::*;

verus! {

/// Whether `sub` occurs inside `text` as a contiguous run.
pub open spec fn contains_run(text: Seq<char>, sub: Seq<char>) -> bool {
    exists|i: int|
        0 <= i && i + sub.len() <= text.len() && #[trigger] text.subrange(i, i + sub.len()) == sub
}

/// The URL join rule, case by case: an empty sub-path yields the bare
/// authority under the scheme; a sub-path with a leading slash is appended
/// unchanged; any other sub-path is appended behind one separating slash.
pub proof fn lemma_join_three_cases(root: Seq<char>, sub: Seq<char>)
    ensures
        sub.len() == 0 ==> joined_url(root, sub) == scheme_prefix() + root,
        sub.len() > 0 && sub[0] == '/' ==> joined_url(root, sub) == scheme_prefix() + root + sub,
        sub.len() > 0 && sub[0] != '/' ==> joined_url(root, sub) == scheme_prefix() + root
            + seq!['/'] + sub,
{
}

/// Merging a response's `Set-Cookie` values succeeds exactly when every one
/// of them is a valid cookie encoding — never on what the jar held.
pub proof fn lemma_merge_succeeds_iff_all_parse(hs: Seq<Seq<char>>)
    ensures
        merge_failure(hs) is None <==> (forall|i: int|
            0 <= i < hs.len() ==> parsed_cookie(#[trigger] hs[i]) is Some),
    decreases hs.len(),
{
    if hs.len() > 0 {
        let rest = hs.drop_first();
        lemma_merge_succeeds_iff_all_parse(rest);
        assert(forall|i: int| 0 <= i < rest.len() ==> #[trigger] rest[i] == hs[i + 1]);
        if parsed_cookie(hs[0]) is None {
            assert(merge_failure(hs) == Some(hs[0]));
        } else {
            assert(merge_failure(hs) == merge_failure(rest));
            if forall|i: int| 0 <= i < rest.len() ==> parsed_cookie(#[trigger] rest[i]) is Some {
                assert forall|i: int| 0 <= i < hs.len() implies parsed_cookie(
                    #[trigger] hs[i],
                ) is Some by {
                    if i > 0 {
                        assert(hs[i] == rest[i - 1]);
                    }
                }
            }
        }
    }
}

/// An explicit content type always wins over a body-method default: setting
/// a body with the JSON default and then overriding the content type yields
/// the override; a body method alone, when nothing was set before, yields
/// its media type.
pub proof fn lemma_explicit_content_type_wins(v: RequestView, explicit: Seq<char>)
    ensures
        (RequestView {
            content_type: Some(explicit),
            ..(RequestView {
                content_type: defaulted_content_type(v.content_type, json_media_type()),
                ..v
            })
        }).content_type == Some(explicit),
        v.content_type is None ==> (RequestView {
            content_type: defaulted_content_type(v.content_type, json_media_type()),
            ..v
        }).content_type == Some(json_media_type()),
{
}

/// Every cookie the jar holds appears, serialized as `name=value`, inside
/// the jar's `Cookie` header text.
pub proof fn lemma_jar_cookie_in_header(jar: Seq<(Seq<char>, Seq<char>)>, k: int)
    requires
        0 <= k < jar.len(),
    ensures
        contains_run(cookie_header_text(jar), pair_text(jar[k])),
    decreases jar.len(),
{
    let text = cookie_header_text(jar);
    let pair = pair_text(jar[k]);
    if jar.len() == 1 {
        assert(text == pair);
        let zero: int = 0;
        assert(text.subrange(zero, zero + pair.len()) =~= pair);
        assert(contains_run(text, pair));
    } else if k == jar.len() - 1 {
        let prefix = cookie_header_text(jar.drop_last()) + seq![';', ' '];
        assert(text == prefix + pair_text(jar.last()));
        assert(jar.last() == jar[k]);
        let i = prefix.len() as int;
        assert(text.subrange(i, i + pair.len()) =~= pair);
        assert(contains_run(text, pair));
    } else {
        let rest = jar.drop_last();
        assert(rest[k] == jar[k]);
        lemma_jar_cookie_in_header(rest, k);
        let rtext = cookie_header_text(rest);
        let i = choose|i: int|
            0 <= i && i + pair.len() <= rtext.len() && #[trigger] rtext.subrange(i, i + pair.len())
                == pair;
        assert(text == rtext + seq![';', ' '] + pair_text(jar.last()));
        assert(text.subrange(i, i + pair.len()) =~= rtext.subrange(i, i + pair.len()));
        assert(contains_run(text, pair));
    }
}

/// Once a response's `Set-Cookie` header carrying `name=value` has been
/// merged, the jar answers `name` with `value`, and a request serializing
/// that jar carries `name=value` inside its `Cookie` header.
pub proof fn lemma_saved_cookie_round_trip(
    jar: Seq<(Seq<char>, Seq<char>)>,
    h: Seq<char>,
    name: Seq<char>,
    value: Seq<char>,
)
    requires
        jar_wf(jar),
        parsed_cookie(h) == Some((name, value)),
    ensures
        jar_lookup(jar_after_merge(jar, seq![h]), name) == Some(value),
        contains_run(
            cookie_header_text(jar_after_merge(jar, seq![h])),
            name + seq!['='] + value,
        ),
{
    let hs = seq![h];
    assert(hs.drop_first() =~= Seq::<Seq<char>>::empty());
    let jar2 = jar_upsert(jar, (name, value));
    assert(jar_after_merge(jar, hs) == jar_after_merge(jar2, hs.drop_first()));
    assert(jar_after_merge(jar, hs) == jar2);
    lemma_upsert(jar, (name, value));
    let k = jar_name_index(jar2, name);
    assert(0 <= k < jar2.len() && jar2[k].0 == name);
    assert(jar2[k].1 == value);
    assert(jar2[k] == (name, value));
    lemma_jar_cookie_in_header(jar2, k);
    assert(pair_text(jar2[k]) == name + seq!['='] + value);
}

/// A request whose local snapshot holds no cookies, and whose explicit
/// headers name none, sends no `cookie` header at all.
pub proof fn lemma_empty_snapshot_sends_no_cookie_header(v: RequestView)
    requires
        v.cookies == Seq::<(Seq<char>, Seq<char>)>::empty(),
        forall|i: int| 0 <= i < v.headers.len() ==> (#[trigger] v.headers[i]).0 != cookie_label(),
    ensures
        forall|i: int|
            0 <= i < assembled_headers(v).len() ==> (#[trigger] assembled_headers(v)[i]).0
                != cookie_label(),
{
    assert(content_type_label().len() != cookie_label().len());
    assert forall|i: int| 0 <= i < assembled_headers(v).len() implies (#[trigger] assembled_headers(
        v,
    )[i]).0 != cookie_label() by {
        let hs = assembled_headers(v);
        if i < v.headers.len() {
            assert(hs[i] == v.headers[i]);
        } else {
            assert(v.content_type is Some && i == v.headers.len());
            assert(hs[i].0 == content_type_label());
        }
    }
}

/// A request that does not save cookies leaves the shared jar exactly as it
/// was, whatever `Set-Cookie` headers its response carried.
pub proof fn lemma_no_save_leaves_jar(jar: Seq<(Seq<char>, Seq<char>)>, sc: Seq<Seq<char>>)
    ensures
        crate::response::jar_after_response(jar, false, sc) == jar,
{
}

/// Two cookies of different names, merged in either order — as two
/// concurrently completing responses are, in whichever order the lock
/// serializes them — both end up in the jar: no update is lost.
pub proof fn lemma_distinct_cookies_both_kept(
    jar: Seq<(Seq<char>, Seq<char>)>,
    n1: Seq<char>,
    v1: Seq<char>,
    n2: Seq<char>,
    v2: Seq<char>,
)
    requires
        jar_wf(jar),
        n1 != n2,
    ensures
        jar_lookup(jar_upsert(jar_upsert(jar, (n1, v1)), (n2, v2)), n1) == Some(v1),
        jar_lookup(jar_upsert(jar_upsert(jar, (n1, v1)), (n2, v2)), n2) == Some(v2),
        jar_lookup(jar_upsert(jar_upsert(jar, (n2, v2)), (n1, v1)), n1) == Some(v1),
        jar_lookup(jar_upsert(jar_upsert(jar, (n2, v2)), (n1, v1)), n2) == Some(v2),
{
    lemma_upsert(jar, (n1, v1));
    lemma_upsert(jar_upsert(jar, (n1, v1)), (n2, v2));
    lemma_upsert(jar, (n2, v2));
    lemma_upsert(jar_upsert(jar, (n2, v2)), (n1, v1));
}

} // verus!
