use vstd::prelude::*;
use vstd::string::*;

verus! {

/// The index of the first occurrence of `c` in `s`, if there is one.
pub open spec fn first_index_of(s: Seq<char>, c: char) -> Option<int>
    decreases s.len(),
{
    if s.len() == 0 {
        None
    } else if s[0] == c {
        Some(0)
    } else {
        match first_index_of(s.drop_first(), c) {
            Some(i) => Some(i + 1),
            None => None,
        }
    }
}

/// The main address of a possibly labelled address: when the text holds both
/// a `+` and an `@`, everything from the first `+` up to (not including) the
/// first `@` is removed; otherwise the text is returned unchanged.
pub open spec fn spec_main_email(s: Seq<char>) -> Seq<char> {
    match (first_index_of(s, '+'), first_index_of(s, '@')) {
        (Some(plus), Some(at)) => s.subrange(0, plus) + s.subrange(at, s.len() as int),
        _ => s,
    }
}

pub proof fn lemma_first_index_of(s: Seq<char>, c: char)
    ensures
        match first_index_of(s, c) {
            Some(i) => 0 <= i < s.len() && s[i] == c && forall|j: int| 0 <= j < i ==> s[j] != c,
            None => forall|j: int| 0 <= j < s.len() ==> s[j] != c,
        },
    decreases s.len(),
{
    if s.len() > 0 {
        lemma_first_index_of(s.drop_first(), c);
        if s[0] != c {
            assert forall|j: int| 1 <= j < s.len() implies s[j] == s.drop_first()[j - 1] by {}
        }
    }
}

/// Scans `s` for the first occurrence of `c`.
fn find_char(s: &str, c: char) -> (res: Option<usize>)
    ensures
        match res {
            Some(i) => first_index_of(s@, c) == Some(i as int),
            None => first_index_of(s@, c) is None,
        },
{
    let n = s.unicode_len();
    let mut i: usize = 0;
    proof {
        lemma_first_index_of(s@, c);
    }
    while i < n
        invariant
            n == s@.len(),
            i <= n,
            forall|j: int| 0 <= j < i ==> s@[j] != c,
            match first_index_of(s@, c) {
                Some(k) => 0 <= k < s@.len() && s@[k] == c && forall|j: int| 0 <= j < k ==> s@[j] != c,
                None => forall|j: int| 0 <= j < s@.len() ==> s@[j] != c,
            },
        decreases n - i,
    {
        if s.get_char(i) == c {
            return Some(i);
        }
        i = i + 1;
    }
    None
}

/// Strips the `+label` part of an e-mail address such as `name+label@host`,
/// giving `name@host`. Text without both a `+` and an `@` comes back as it is.
pub fn extract_main_email(email_with_label: &str) -> (res: String)
    ensures
        res@ == spec_main_email(email_with_label@),
{
    let n = email_with_label.unicode_len();
    if let Some(plus_index) = find_char(email_with_label, '+') {
        if let Some(at_index) = find_char(email_with_label, '@') {
            proof {
                lemma_first_index_of(email_with_label@, '+');
                lemma_first_index_of(email_with_label@, '@');
            }
            let mut res = String::from_str(email_with_label.substring_char(0, plus_index));
            res.append(email_with_label.substring_char(at_index, n));
            return res;
        }
    }
    String::from_str(email_with_label)
}

/// Occurrences in a prefix free of `c` only shift the first index.
proof fn lemma_first_index_of_append(a: Seq<char>, b: Seq<char>, c: char)
    requires
        forall|i: int| 0 <= i < a.len() ==> a[i] != c,
    ensures
        first_index_of(a + b, c) == match first_index_of(b, c) {
            Some(i) => Some(i + a.len()),
            None => None,
        },
    decreases a.len(),
{
    if a.len() == 0 {
        assert(a + b =~= b);
    } else {
        assert((a + b).drop_first() =~= a.drop_first() + b);
        lemma_first_index_of_append(a.drop_first(), b, c);
    }
}

/// A labelled address `name+label@host`, whose name holds neither `+` nor
/// `@` and whose label holds no `@`, has the main address `name@host`.
pub proof fn law_label_is_dropped(name: Seq<char>, label: Seq<char>, host: Seq<char>)
    requires
        forall|i: int| 0 <= i < name.len() ==> name[i] != '+' && name[i] != '@',
        forall|i: int| 0 <= i < label.len() ==> label[i] != '@',
    ensures
        spec_main_email(name + seq!['+'] + label + seq!['@'] + host) == name + seq!['@'] + host,
{
    let s = name + seq!['+'] + label + seq!['@'] + host;
    let rest_plus = seq!['+'] + label + seq!['@'] + host;
    assert(s =~= name + rest_plus);
    lemma_first_index_of_append(name, rest_plus, '+');
    assert(first_index_of(rest_plus, '+') == Some(0int));
    let before_at = name + seq!['+'] + label;
    assert forall|i: int| 0 <= i < before_at.len() implies before_at[i] != '@' by {
        if i < name.len() {
            assert(before_at[i] == name[i]);
        } else if i > name.len() {
            assert(before_at[i] == label[i - name.len() - 1]);
        }
    }
    let rest_at = seq!['@'] + host;
    assert(s =~= before_at + rest_at);
    lemma_first_index_of_append(before_at, rest_at, '@');
    assert(first_index_of(rest_at, '@') == Some(0int));
    assert(s.subrange(0, name.len() as int) =~= name);
    assert(s.subrange(before_at.len() as int, s.len() as int) =~= seq!['@'] + host);
    assert(name + (seq!['@'] + host) =~= name + seq!['@'] + host);
}

/// Text without a `+` is its own main address.
pub proof fn law_unlabelled_unchanged(s: Seq<char>)
    requires
        forall|i: int| 0 <= i < s.len() ==> s[i] != '+',
    ensures
        spec_main_email(s) == s,
{
    lemma_first_index_of(s, '+');
}

} // verus!
