//! Names of frames and chats: what a name means to the planners.

use crate::text::{
    contains, has_part, has_plain_case, has_prefix, is_white_space, law_prefix, normalize,
    normalized, occurs_at, same_text, starts_with, trim, trimmed, trimmed_end, trimmed_start,
};
use vstd::prelude::*;

verus! {

// ---------------------------------------------------------------------------
// Frame names
// ---------------------------------------------------------------------------

/// Whether a normalized frame name is that of a chat window: the main window, or one detached
/// from it.
pub open spec fn is_main_frame_key(key: Seq<char>) -> bool {
    ||| key == "wechat"@
    ||| key == "weixin"@
    ||| key == "微信"@
    ||| has_prefix(key, "wechat - "@)
    ||| has_prefix(key, "weixin - "@)
    ||| has_prefix(key, "微信 - "@)
}

/// Whether a normalized frame name is that of a window that holds no chat.
pub open spec fn is_auxiliary_key(key: Seq<char>) -> bool {
    ||| has_part(key, "settings"@)
    ||| has_part(key, "设置"@)
    ||| has_part(key, "wechat team"@)
    ||| has_part(key, "微信团队"@)
    ||| has_part(key, "weixin team"@)
}

/// Whether a normalized frame name is that of a chat window.
pub fn key_is_main_frame(key: &str) -> (r: bool)
    ensures
        r == is_main_frame_key(key@),
{
    same_text(key, "wechat") || same_text(key, "weixin") || same_text(key, "微信") || starts_with(
        key,
        "wechat - ",
    ) || starts_with(key, "weixin - ") || starts_with(key, "微信 - ")
}

/// Whether a normalized frame name is that of a window that holds no chat.
pub fn key_is_auxiliary(key: &str) -> (r: bool)
    ensures
        r == is_auxiliary_key(key@),
{
    contains(key, "settings") || contains(key, "设置") || contains(key, "wechat team") || contains(
        key,
        "微信团队",
    ) || contains(key, "weixin team")
}

/// Whether a frame name is that of a chat window (the main one, or a detached chat).
pub fn is_main_wechat_frame_name(name: &str) -> (r: bool)
    ensures
        r == is_main_frame_key(normalized(name@)),
{
    let key = normalize(name);
    key_is_main_frame(key.as_str())
}

/// Whether a frame name is that of a known window without a chat, such as the settings.
pub fn is_auxiliary_or_stale_frame(name: &str) -> (r: bool)
    ensures
        r == is_auxiliary_key(normalized(name@)),
{
    let key = normalize(name);
    key_is_auxiliary(key.as_str())
}

// ---------------------------------------------------------------------------
// Chat names
// ---------------------------------------------------------------------------

/// Whether a normalized chat name is one of the names of the file helper.
pub open spec fn is_filehelper_key(key: Seq<char>) -> bool {
    ||| key == "filehelper"@
    ||| key == "file transfer"@
    ||| key == "文件传输助手"@
}

/// Whether two normalized chat names stand for the same chat.
pub open spec fn is_same_chat_key(expected: Seq<char>, actual: Seq<char>) -> bool {
    expected == actual || (is_filehelper_key(expected) && is_filehelper_key(actual))
}

/// Whether two chat names stand for the same chat.
pub open spec fn is_same_chat(expected: Seq<char>, actual: Seq<char>) -> bool {
    is_same_chat_key(normalized(expected), normalized(actual))
}

/// Whether a normalized chat name is that of a system account that is never messaged.
pub open spec fn is_denied_key(key: Seq<char>) -> bool {
    ||| key == "微信团队"@
    ||| key == "wechat team"@
    ||| key == "weixin team"@
}

/// Whether a normalized name is that of a search box.
pub open spec fn is_search_key(key: Seq<char>) -> bool {
    ||| key == "search"@
    ||| key == "搜索"@
    ||| has_part(key, "search"@)
}

/// Whether a normalized list name is that of a list whose rows are chats or search results.
pub open spec fn is_row_list_key(key: Seq<char>) -> bool {
    ||| key == "chats"@
    ||| has_part(key, "search"@)
    ||| has_part(key, "搜索"@)
    ||| key.len() == 0
}

fn key_is_filehelper(key: &str) -> (r: bool)
    ensures
        r == is_filehelper_key(key@),
{
    same_text(key, "filehelper") || same_text(key, "file transfer") || same_text(
        key,
        "文件传输助手",
    )
}

/// Whether two normalized chat names stand for the same chat.
pub fn keys_are_same_chat(expected: &str, actual: &str) -> (r: bool)
    ensures
        r == is_same_chat_key(expected@, actual@),
{
    same_text(expected, actual) || (key_is_filehelper(expected) && key_is_filehelper(actual))
}

/// Whether the expected chat is the one that is open, up to the names of the file helper.
pub fn is_target_chat_name_match(expected: &str, actual: &str) -> (r: bool)
    ensures
        r == is_same_chat(expected@, actual@),
{
    let exp = normalize(expected);
    let act = normalize(actual);
    keys_are_same_chat(exp.as_str(), act.as_str())
}

/// Whether a normalized chat name is that of a system account that is never messaged.
pub fn key_is_denied(key: &str) -> (r: bool)
    ensures
        r == is_denied_key(key@),
{
    same_text(key, "微信团队") || same_text(key, "wechat team") || same_text(key, "weixin team")
}

/// Whether a chat is that of a system account that is never messaged.
pub fn is_denied_system_chat(name: &str) -> (r: bool)
    ensures
        r == is_denied_key(normalized(name@)),
{
    let key = normalize(name);
    key_is_denied(key.as_str())
}

/// Whether a normalized name is that of a search box.
pub fn key_is_search(key: &str) -> (r: bool)
    ensures
        r == is_search_key(key@),
{
    same_text(key, "search") || same_text(key, "搜索") || contains(key, "search")
}

/// Whether a normalized list name is that of a list whose rows are chats or search results.
pub fn key_is_row_list(key: &str) -> (r: bool)
    ensures
        r == is_row_list_key(key@),
{
    same_text(key, "chats") || contains(key, "search") || contains(key, "搜索") || key.is_empty()
}

// ---------------------------------------------------------------------------
// Chat titles
// ---------------------------------------------------------------------------

/// The pattern of a member count at the end of a group title, such as " (42)".
pub const MEMBER_COUNT: &'static str = "\\s*\\(\\d+\\)$";

/// Whether `t` ends with a member count in ASCII digits whose bracket opens at `k`.
pub open spec fn count_opens_at(t: Seq<char>, k: int) -> bool {
    &&& 0 <= k
    &&& k + 2 < t.len()
    &&& t[k] == '('
    &&& t.last() == ')'
    &&& forall|j: int| k < j < t.len() - 1 ==> '0' <= #[trigger] t[j] <= '9'
}

/// `t` without the member count at its end and without the white space before it.
pub open spec fn without_plain_count(t: Seq<char>) -> Seq<char> {
    if exists|k: int| count_opens_at(t, k) {
        trimmed_end(t.subrange(0, choose|k: int| count_opens_at(t, k)))
    } else {
        t
    }
}

/// What replacing the first match of the pattern `pattern` in `text` by `replacement` gives;
/// `None` if `pattern` is not a pattern.
pub uninterp spec fn regex_replaced(
    pattern: Seq<char>,
    text: Seq<char>,
    replacement: Seq<char>,
) -> Option<Seq<char>>;

/// Whether what digits there are in the brackets at the end of `t` are `0` to `9`: `t` does not
/// end with a bracket, or with one in ASCII digits, or holds ASCII characters and ideographs only.
pub open spec fn has_plain_digits(t: Seq<char>) -> bool {
    t.len() == 0 || t.last() != ')' || has_plain_case(t) || exists|k: int| count_opens_at(t, k)
}

/// `t` without the member count at its end.
pub open spec fn without_member_count(t: Seq<char>) -> Seq<char> {
    if has_plain_digits(t) {
        without_plain_count(t)
    } else {
        regex_replaced(MEMBER_COUNT@, t, Seq::empty())->Some_0
    }
}

/// The chat that a title names: the title, trimmed, without a member count.
pub open spec fn chat_of_title(name: Seq<char>) -> Seq<char> {
    trimmed(without_member_count(trimmed(name)))
}

/// `regex::Regex::new`, then `Regex::replace` on `text`: the first match of `pattern` is
/// replaced. The result is named [`regex_replaced`]. Beside the name stands what the
/// documented syntax gives for [`MEMBER_COUNT`] and an empty replacement: it is a pattern
/// (`\\s` is white space, `\\d` a decimal digit, `$` the end of the text), and where the only
/// digits at hand are `0` to `9` the leftmost match is the white space before the bracket and
/// the bracket with its digits.
#[verifier::external_body]
fn regex_replace_first(pattern: &str, text: &str, replacement: &str) -> (r: Option<String>)
    ensures
        (match r {
            Some(s) => Some(s@),
            None => None,
        }) == regex_replaced(pattern@, text@, replacement@),
        pattern@ == MEMBER_COUNT@ && replacement@.len() == 0 ==> r is Some,
        pattern@ == MEMBER_COUNT@ && replacement@.len() == 0 && has_plain_digits(text@)
            ==> r->Some_0@ == without_plain_count(text@),
{
    match regex::Regex::new(pattern) {
        Ok(re) => Some(re.replace(text, replacement).into_owned()),
        Err(_) => None,
    }
}

/// Strips a member count such as "(3)" or " (42)" from the title of a group chat.
pub fn clean_chat_title(name: &str) -> (r: String)
    ensures
        r@ == chat_of_title(name@),
{
    let kept = regex_replace_first(MEMBER_COUNT, trim(name), "");
    assert(""@ =~= Seq::<char>::empty()) by {
        reveal_strlit("");
    }
    let stem = kept.unwrap();
    trim(stem.as_str()).to_owned()
}

// ---------------------------------------------------------------------------
// Laws
// ---------------------------------------------------------------------------

/// To stand for the same chat is an equivalence: every name stands for the chat that it stands
/// for, the order of two names does not matter, and names that match a third match each other.
pub proof fn law_same_chat_is_equivalence(a: Seq<char>, b: Seq<char>, c: Seq<char>)
    ensures
        is_same_chat(a, a),
        is_same_chat(a, b) == is_same_chat(b, a),
        is_same_chat(a, b) && is_same_chat(b, c) ==> is_same_chat(a, c),
{
}

proof fn lemma_trimmed_start_begins(s: Seq<char>)
    ensures
        trimmed_start(s).len() > 0 ==> !is_white_space(trimmed_start(s)[0]),
    decreases s.len(),
{
    if s.len() > 0 && is_white_space(s[0]) {
        lemma_trimmed_start_begins(s.subrange(1, s.len() as int));
    }
}

proof fn lemma_trimmed_end(s: Seq<char>)
    ensures
        trimmed_end(s).len() <= s.len(),
        trimmed_end(s) == s.subrange(0, trimmed_end(s).len() as int),
        trimmed_end(s).len() > 0 ==> !is_white_space(trimmed_end(s).last()),
    decreases s.len(),
{
    if s.len() > 0 && is_white_space(s.last()) {
        lemma_trimmed_end(s.drop_last());
        assert(trimmed_end(s) =~= s.subrange(0, trimmed_end(s).len() as int));
    } else {
        assert(s =~= s.subrange(0, s.len() as int));
    }
}

/// A trimmed text begins and ends with something other than white space.
proof fn lemma_trimmed(s: Seq<char>)
    ensures
        trimmed(s).len() > 0 ==> !is_white_space(trimmed(s)[0]) && !is_white_space(
            trimmed(s).last(),
        ),
{
    lemma_trimmed_start_begins(s);
    lemma_trimmed_end(trimmed_start(s));
}

proof fn lemma_trimmed_end_skips(s: Seq<char>, gap: Seq<char>)
    requires
        forall|i: int| 0 <= i < gap.len() ==> is_white_space(#[trigger] gap[i]),
    ensures
        trimmed_end(s + gap) == trimmed_end(s),
    decreases gap.len(),
{
    if gap.len() == 0 {
        assert(s + gap =~= s);
    } else {
        assert((s + gap).drop_last() =~= s + gap.drop_last());
        assert((s + gap).last() == gap.last());
        lemma_trimmed_end_skips(s, gap.drop_last());
    }
}

proof fn lemma_trimmed_start_skips(gap: Seq<char>, s: Seq<char>)
    requires
        forall|i: int| 0 <= i < gap.len() ==> is_white_space(#[trigger] gap[i]),
    ensures
        trimmed_start(gap + s) == trimmed_start(s),
    decreases gap.len(),
{
    if gap.len() == 0 {
        assert(gap + s =~= s);
    } else {
        let rest = gap.subrange(1, gap.len() as int);
        assert((gap + s).subrange(1, (gap + s).len() as int) =~= rest + s);
        assert((gap + s)[0] == gap[0]);
        lemma_trimmed_start_skips(rest, s);
    }
}

/// The title of a group chat names the group: the number of its members in brackets at the end,
/// and the white space before it, do not belong to the name.
pub proof fn law_member_count_is_stripped(name: Seq<char>, gap: Seq<char>, digits: Seq<char>)
    requires
        trimmed(name) == name,
        forall|i: int| 0 <= i < gap.len() ==> is_white_space(#[trigger] gap[i]),
        digits.len() > 0,
        forall|i: int| 0 <= i < digits.len() ==> '0' <= #[trigger] digits[i] <= '9',
    ensures
        chat_of_title(name + gap + seq!['('] + digits + seq![')']) == name,
{
    let count = seq!['('] + digits + seq![')'];
    let title = name + gap + seq!['('] + digits + seq![')'];
    assert(title =~= (name + gap) + count);
    lemma_trimmed(name);
    if name.len() > 0 {
        assert(title[0] == name[0]);
        assert(title.last() == ')');
        assert(trimmed(title) == title);
        lemma_count_is_cut(name, gap, digits);
    } else {
        assert(title =~= gap + count);
        lemma_trimmed_start_skips(gap, count);
        assert(count[0] == '(');
        assert(count.last() == ')');
        assert(trimmed(title) == count);
        let none = Seq::<char>::empty();
        assert(none + none + seq!['('] + digits + seq![')'] =~= count);
        lemma_trimmed_end(none);
        lemma_count_is_cut(none, none, digits);
        assert(name =~= none);
    }
}

proof fn lemma_count_is_cut(name: Seq<char>, gap: Seq<char>, digits: Seq<char>)
    requires
        trimmed(name) == name,
        forall|i: int| 0 <= i < gap.len() ==> is_white_space(#[trigger] gap[i]),
        digits.len() > 0,
        forall|i: int| 0 <= i < digits.len() ==> '0' <= #[trigger] digits[i] <= '9',
    ensures
        without_member_count(name + gap + seq!['('] + digits + seq![')']) == name,
{
    let title = name + gap + seq!['('] + digits + seq![')'];
    let at = (name + gap).len() as int;
    assert(title[at] == '(');
    assert(title.last() == ')');
    assert forall|j: int| at < j < title.len() - 1 implies '0' <= #[trigger] title[j] <= '9' by {
        assert(title[j] == digits[j - at - 1]);
    }
    assert(count_opens_at(title, at));
    let k = choose|k: int| count_opens_at(title, k);
    assert(k == at) by {
        if k < at {
            assert('0' <= title[at] <= '9');
        } else if at < k {
            assert('0' <= title[k] <= '9');
        }
    }
    assert(title.subrange(0, at) =~= name + gap);
    lemma_trimmed_end_skips(name, gap);
    lemma_trimmed(name);
}

/// A chat window is called by the name of the client, in any of its three spellings, or by that name
/// with the name of a chat behind it. No other name will do.
pub proof fn law_chat_window_names(key: Seq<char>)
    ensures
        is_main_frame_key(key) <==> {
            ||| key == "wechat"@ || key == "weixin"@ || key == "微信"@
            ||| exists|chat: Seq<char>| key == #[trigger] ("wechat - "@ + chat)
            ||| exists|chat: Seq<char>| key == #[trigger] ("weixin - "@ + chat)
            ||| exists|chat: Seq<char>| key == #[trigger] ("微信 - "@ + chat)
        },
{
    law_prefix(key, "wechat - "@);
    law_prefix(key, "weixin - "@);
    law_prefix(key, "微信 - "@);
}

/// A window holds no chat where its name speaks of the settings or of the team of the client.
pub proof fn law_auxiliary_names(key: Seq<char>)
    ensures
        is_auxiliary_key(key) <==> has_part(key, "settings"@) || has_part(key, "设置"@) || has_part(
            key,
            "wechat team"@,
        ) || has_part(key, "微信团队"@) || has_part(key, "weixin team"@),
{
}

/// Two names stand for the same chat where they are the same but for case and white space around
/// them, or where both are among the three names of the file helper.
pub proof fn law_names_of_a_chat(a: Seq<char>, b: Seq<char>)
    ensures
        normalized(a) == normalized(b) ==> is_same_chat(a, b),
        is_same_chat(a, b) && normalized(a) != normalized(b) ==> {
            &&& normalized(a) == "filehelper"@ || normalized(a) == "file transfer"@ || normalized(a)
                == "文件传输助手"@
            &&& normalized(b) == "filehelper"@ || normalized(b) == "file transfer"@ || normalized(b)
                == "文件传输助手"@
        },
        (normalized(a) == "filehelper"@ || normalized(a) == "file transfer"@ || normalized(a)
            == "文件传输助手"@) && (normalized(b) == "filehelper"@ || normalized(b)
            == "file transfer"@ || normalized(b) == "文件传输助手"@) ==> is_same_chat(a, b),
{
}

/// Three names are those of the team of the client, which is never messaged.
pub proof fn law_denied_names(key: Seq<char>)
    ensures
        is_denied_key(key) <==> key == "微信团队"@ || key == "wechat team"@ || key
            == "weixin team"@,
{
}

/// A search box is called so in one of the two languages; in the latin one more may stand around it.
pub proof fn law_search_names(key: Seq<char>)
    ensures
        is_search_key(key) <==> key == "搜索"@ || has_part(key, "search"@),
{
    if key == "search"@ {
        assert(key.subrange(0, key.len() as int) =~= key);
        assert(occurs_at(key, "search"@, 0));
    }
}

/// The rows of a list are chats or search results where the list has no name, is that of the chats,
/// or speaks of a search.
pub proof fn law_row_list_names(key: Seq<char>)
    ensures
        is_row_list_key(key) <==> key.len() == 0 || key == "chats"@ || has_part(key, "search"@)
            || has_part(key, "搜索"@),
{
}

/// A title that does not end with a bracket names its chat as it stands, but for the white space
/// around it. So does one with brackets at its end that hold no number, where it is of ASCII
/// characters and ideographs.
pub proof fn law_plain_title_is_kept(name: Seq<char>)
    requires
        ({
            let t = trimmed(name);
            ||| t.len() == 0
            ||| t.last() != ')'
            ||| has_plain_case(t) && forall|k: int| !#[trigger] count_opens_at(t, k)
        }),
    ensures
        chat_of_title(name) == trimmed(name),
{
    let t = trimmed(name);
    assert(forall|k: int| !count_opens_at(t, k));
    law_trimmed_again(name);
}

/// To trim what is trimmed changes nothing.
pub proof fn law_trimmed_again(s: Seq<char>)
    ensures
        trimmed(trimmed(s)) == trimmed(s),
{
    lemma_trimmed(s);
}

/// A count at the end of a title is a number of decimal digits in brackets.
pub proof fn law_member_counts(t: Seq<char>, k: int)
    ensures
        count_opens_at(t, k) <==> exists|front: Seq<char>, digits: Seq<char>|
            front.len() == k && digits.len() > 0 && (forall|i: int|
                0 <= i < digits.len() ==> '0' <= #[trigger] digits[i] <= '9') && t == #[trigger] (
            front + seq!['('] + digits + seq![')']),
{
    if count_opens_at(t, k) {
        let front = t.subrange(0, k);
        let digits = t.subrange(k + 1, t.len() - 1);
        assert forall|i: int| 0 <= i < digits.len() implies '0' <= #[trigger] digits[i] <= '9' by {
            assert('0' <= t[k + 1 + i] <= '9');
        }
        assert(t =~= front + seq!['('] + digits + seq![')']);
    }
    if exists|front: Seq<char>, digits: Seq<char>|
        front.len() == k && digits.len() > 0 && (forall|i: int|
            0 <= i < digits.len() ==> '0' <= #[trigger] digits[i] <= '9') && t == #[trigger] (front
            + seq!['('] + digits + seq![')']) {
        let (front, digits) = choose|front: Seq<char>, digits: Seq<char>|
            front.len() == k && digits.len() > 0 && (forall|i: int|
                0 <= i < digits.len() ==> '0' <= #[trigger] digits[i] <= '9') && t == #[trigger] (
            front + seq!['('] + digits + seq![')']);
        assert(t[k] == '(');
        assert forall|j: int| k < j < t.len() - 1 implies '0' <= #[trigger] t[j] <= '9' by {
            assert(t[j] == digits[j - k - 1]);
        }
    }
}

/// Of a title that ends with a bracket and is neither plain nor ends with a count in the digits `0`
/// to `9`, the pattern of a count decides what is left.
pub proof fn law_other_titles(name: Seq<char>)
    requires
        trimmed(name).len() > 0,
        trimmed(name).last() == ')',
        !has_plain_case(trimmed(name)),
        forall|k: int| !#[trigger] count_opens_at(trimmed(name), k),
    ensures
        chat_of_title(name) == trimmed(
            regex_replaced("\\s*\\(\\d+\\)$"@, trimmed(name), Seq::empty())->Some_0,
        ),
{
}

} // verus!
