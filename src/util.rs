use vstd::prelude::*;
use crate::deploy::{decimal_value, digit_value, digits_of, id_of, is_digit};
use crate::settings::{decimal_digits, decimal_text, digit_char};

verus! {

/// What a message body reads as once its escapes are applied:
/// `//` stands for a slash, `\\` for a backslash, and a lone `\` for a new line.
pub open spec fn unescaped(s: Seq<char>) -> Seq<char>
    decreases s.len(),
{
    if s.len() == 0 {
        Seq::empty()
    } else if s.len() >= 2 && s[0] == '/' && s[1] == '/' {
        seq!['/'] + unescaped(s.skip(2))
    } else if s.len() >= 2 && s[0] == '\\' && s[1] == '\\' {
        seq!['\\'] + unescaped(s.skip(2))
    } else if s[0] == '\\' {
        seq!['\n'] + unescaped(s.skip(1))
    } else {
        seq![s[0]] + unescaped(s.skip(1))
    }
}

/// Relies on `String::push`: the character is appended at the end.
#[verifier::external_body]
pub(crate) fn push_char(s: &mut String, c: char)
    ensures
        final(s)@ == old(s)@.push(c),
{
    s.push(c);
}

/// Applies the escapes of a message body (see `unescaped`).
pub fn parse_message_with_emotes(message: String) -> (r: String)
    ensures
        r@ == unescaped(message@),
{
    let text = message.as_str();
    let n = text.unicode_len();
    let mut result = String::new();
    let mut i: usize = 0;
    assert(text@.skip(0) =~= text@);
    assert(result@ + unescaped(text@.skip(0)) =~= unescaped(text@));
    while i < n
        invariant
            n == text@.len(),
            text@ == message@,
            i <= n,
            result@ + unescaped(text@.skip(i as int)) == unescaped(text@),
        decreases n - i,
    {
        let rest = Ghost(text@.skip(i as int));
        let old_result = Ghost(result@);
        let c = text.get_char(i);
        let next_same = i + 1 < n && text.get_char(i + 1) == c;
        assert(rest@[0] == c);
        if (c == '/' || c == '\\') && next_same {
            assert(rest@.skip(2) =~= text@.skip(i + 2));
            if c == '/' {
                push_char(&mut result, '/');
            } else {
                push_char(&mut result, '\\');
            }
            assert(result@ + unescaped(text@.skip(i + 2)) =~= old_result@ + unescaped(rest@));
            i = i + 2;
        } else {
            assert(rest@.skip(1) =~= text@.skip(i + 1));
            if c == '\\' {
                push_char(&mut result, '\n');
            } else {
                push_char(&mut result, c);
            }
            assert(result@ + unescaped(text@.skip(i + 1)) =~= old_result@ + unescaped(rest@));
            i = i + 1;
        }
    }
    assert(text@.skip(n as int) =~= Seq::<char>::empty());
    assert(result@ =~= result@ + unescaped(text@.skip(n as int)));
    result
}

/// The pieces of `s` between the separators, in order; there is always at least one.
pub open spec fn split_on(s: Seq<char>, sep: char) -> Seq<Seq<char>>
    decreases s.len(),
{
    if s.len() == 0 {
        seq![Seq::empty()]
    } else {
        let init = split_on(s.drop_last(), sep);
        if s.last() == sep {
            init.push(Seq::empty())
        } else {
            init.update(init.len() - 1, init.last().push(s.last()))
        }
    }
}

/// The pieces of `s` between the separators, in order.
pub fn split_text(s: &str, sep: char) -> (r: Vec<String>)
    ensures
        r@.map_values(|p: String| p@) == split_on(s@, sep),
{
    let n = s.unicode_len();
    let mut pieces: Vec<String> = Vec::new();
    let mut current = String::new();
    let mut i: usize = 0;
    proof {
        assert(s@.take(0) =~= Seq::<char>::empty());
        assert(split_on(s@.take(0), sep) =~= seq![Seq::<char>::empty()]);
        assert(pieces@.map_values(|p: String| p@).push(current@) =~= split_on(s@.take(0), sep));
    }
    while i < n
        invariant
            n == s@.len(),
            i <= n,
            pieces@.map_values(|p: String| p@).push(current@) == split_on(s@.take(i as int), sep),
        decreases n - i,
    {
        let c = s.get_char(i);
        assert(s@.take(i + 1).drop_last() =~= s@.take(i as int));
        assert(s@.take(i + 1).last() == c);
        if c == sep {
            pieces.push(current);
            current = String::new();
        } else {
            push_char(&mut current, c);
        }
        assert(pieces@.map_values(|p: String| p@).push(current@) =~= split_on(s@.take(i + 1), sep));
        i = i + 1;
    }
    assert(s@.take(n as int) =~= s@);
    pieces.push(current);
    assert(pieces@.map_values(|p: String| p@) =~= split_on(s@, sep));
    pieces
}

/// Where the first `c` of a text stands, if it has one.
pub open spec fn first_index(s: Seq<char>, c: char) -> Option<int>
    decreases s.len(),
{
    if s.len() == 0 {
        None
    } else if s[0] == c {
        Some(0)
    } else {
        match first_index(s.skip(1), c) {
            Some(k) => Some(k + 1),
            None => None,
        }
    }
}

/// A "{channel id}-{message id}" pair: the text is cut at its first `-`, and
/// each side must read as a `u64` (see `id_of`).
pub open spec fn message_id_pair(s: Seq<char>) -> Option<(u64, u64)> {
    match first_index(s, '-') {
        None => None,
        Some(k) => match (id_of(s.take(k)), id_of(s.skip(k + 1))) {
            (Some(channel), Some(message)) => Some((channel, message)),
            _ => None,
        },
    }
}

/// Relies on `serenity::utils::parse_message_id_pair`, which splits the text
/// once at its first `-` and reads each side with `u64`'s `parse`; the ids are
/// handed out as plain numbers.
#[verifier::external_body]
fn channel_message_pair(s: &str) -> (r: Option<(u64, u64)>)
    ensures
        r == message_id_pair(s@),
{
    serenity::utils::parse_message_id_pair(s).map(|(channel, message)| (channel.0, message.0))
}

/// The message that a component id of the form "some-id={channel}-{message}"
/// points at.
pub open spec fn message_ref_spec(custom_id: Seq<char>) -> Option<(u64, u64)> {
    let pieces = split_on(custom_id, '=');
    if pieces.len() == 2 {
        message_id_pair(pieces[1])
    } else {
        None
    }
}

/// Reads the channel and message ids out of a component id of the form
/// "some-id={channel}-{message}".
pub fn get_message_ref(custom_id: &str) -> (r: Option<(u64, u64)>)
    ensures
        r == message_ref_spec(custom_id@),
{
    let tokens = split_text(custom_id, '=');
    if tokens.len() == 2 {
        assert(tokens@[1]@ == split_on(custom_id@, '=')[1]);
        channel_message_pair(tokens[1].as_str())
    } else {
        None
    }
}

/// The component id of the modal that asks which emotes to react with to a
/// message: "react-query={channel}-{message}".
pub open spec fn react_query_spec(channel_id: u64, message_id: u64) -> Seq<char> {
    "react-query="@ + decimal_digits(channel_id as nat) + "-"@ + decimal_digits(message_id as nat)
}

/// Builds the component id that points the reaction modal at a message.
pub fn react_query_id(channel_id: u64, message_id: u64) -> (r: String)
    ensures
        r@ == react_query_spec(channel_id, message_id),
{
    let mut s = String::from_str("react-query=");
    let channel = decimal_text(channel_id);
    s.append(channel.as_str());
    s.append("-");
    let message = decimal_text(message_id);
    s.append(message.as_str());
    s
}

proof fn lemma_decimal_digits(n: nat)
    ensures
        decimal_digits(n).len() > 0,
        forall|i: int| 0 <= i < decimal_digits(n).len() ==> is_digit(#[trigger] decimal_digits(n)[i]),
        decimal_value(decimal_digits(n)) == n,
        id_of(decimal_digits(n)) == Some(n as u64) <== n <= u64::MAX,
    decreases n,
{
    let d = decimal_digits(n);
    let last = (n % 10) as nat;
    assert(digit_char(last) as int == 48 + last);
    assert(digit_value(digit_char(last)) == last);
    if n < 10 {
        assert(d.drop_last() =~= Seq::<char>::empty());
        assert(decimal_value(d) == decimal_value(Seq::<char>::empty()) * 10 + digit_value(d.last()));
    } else {
        lemma_decimal_digits(n / 10);
        assert(d.drop_last() =~= decimal_digits(n / 10));
        assert(decimal_value(d) == decimal_value(decimal_digits(n / 10)) * 10 + digit_value(d.last()));
        assert((n / 10) * 10 + n % 10 == n);
    }
    assert(d[0] != '+');
    if n <= u64::MAX {
        assert(id_of(d) == digits_of(d));
    }
}

/// A text without `sep`, followed by `sep`, followed by another text without
/// `sep`, splits into those two texts.
proof fn lemma_split_two(a: Seq<char>, b: Seq<char>, sep: char)
    requires
        forall|i: int| 0 <= i < a.len() ==> a[i] != sep,
        forall|i: int| 0 <= i < b.len() ==> b[i] != sep,
    ensures
        split_on(a.push(sep) + b, sep) == seq![a, b],
    decreases a.len() + b.len(),
{
    if b.len() == 0 {
        assert(a.push(sep) + b =~= a.push(sep));
        assert((a.push(sep)).drop_last() =~= a);
        lemma_split_none(a, sep);
        assert(b =~= Seq::<char>::empty());
        assert(split_on(a, sep).push(Seq::<char>::empty()) =~= seq![a, b]);
    } else {
        let s = a.push(sep) + b;
        lemma_split_two(a, b.drop_last(), sep);
        assert(s.drop_last() =~= a.push(sep) + b.drop_last());
        assert(b.drop_last().push(b.last()) =~= b);
        assert(seq![a, b.drop_last()].update(1, b.drop_last().push(b.last())) =~= seq![a, b]);
    }
}

/// A text without `sep` is one piece.
proof fn lemma_split_none(a: Seq<char>, sep: char)
    requires
        forall|i: int| 0 <= i < a.len() ==> a[i] != sep,
    ensures
        split_on(a, sep) == seq![a],
    decreases a.len(),
{
    if a.len() > 0 {
        lemma_split_none(a.drop_last(), sep);
        assert(a.drop_last().push(a.last()) =~= a);
        assert(seq![a.drop_last()].update(0, a.drop_last().push(a.last())) =~= seq![a]);
    } else {
        assert(a =~= Seq::<char>::empty());
    }
}

proof fn lemma_first_index(a: Seq<char>, b: Seq<char>, c: char)
    requires
        forall|i: int| 0 <= i < a.len() ==> a[i] != c,
    ensures
        first_index(a.push(c) + b, c) == Some(a.len() as int),
    decreases a.len(),
{
    let s = a.push(c) + b;
    if a.len() > 0 {
        lemma_first_index(a.skip(1), b, c);
        assert(s.skip(1) =~= a.skip(1).push(c) + b);
    }
}

/// The component id that `react_query_id` builds for a message is read back
/// by `get_message_ref` as that message's channel and message ids.
pub proof fn lemma_react_query_round_trip(channel_id: u64, message_id: u64)
    ensures
        message_ref_spec(react_query_spec(channel_id, message_id)) == Some((channel_id, message_id)),
{
    reveal_strlit("react-query=");
    reveal_strlit("-");
    let dc = decimal_digits(channel_id as nat);
    let dm = decimal_digits(message_id as nat);
    lemma_decimal_digits(channel_id as nat);
    lemma_decimal_digits(message_id as nat);
    let prefix = "react-query="@.drop_last();
    assert(forall|i: int| 0 <= i < prefix.len() ==> prefix[i] != '=');
    let pair = dc.push('-') + dm;
    assert(forall|i: int| 0 <= i < pair.len() ==> pair[i] != '=') by {
        assert forall|i: int| 0 <= i < pair.len() implies pair[i] != '=' by {
            if i < dc.len() {
                assert(is_digit(dc[i]));
            } else if i > dc.len() {
                assert(pair[i] == dm[i - dc.len() - 1]);
                assert(is_digit(dm[i - dc.len() - 1]));
            }
        }
    }
    assert(react_query_spec(channel_id, message_id) =~= prefix.push('=') + pair);
    lemma_split_two(prefix, pair, '=');
    assert(forall|i: int| 0 <= i < dc.len() ==> dc[i] != '-') by {
        assert forall|i: int| 0 <= i < dc.len() implies dc[i] != '-' by {
            assert(is_digit(dc[i]));
        }
    }
    lemma_first_index(dc, dm, '-');
    assert(pair.take(dc.len() as int) =~= dc);
    assert(pair.skip(dc.len() as int + 1) =~= dm);
}

} // verus!
