//! Text handling: words, trimming, decimal numbers, path joining and the like,
//! each stated over the sequence of characters that a string holds.
use vstd::prelude::*;
use vstd::string::*;

verus! {

broadcast use vstd::string::to_string_from_display_ensures_for_str;

/// The characters of each string of a list.
pub open spec fn texts(list: Seq<String>) -> Seq<Seq<char>> {
    Seq::new(list.len(), |i: int| list[i]@)
}

/// The Unicode property White_Space.
pub open spec fn is_white_space(c: char) -> bool {
    ||| 0x9 <= c as u32 <= 0xd
    ||| c as u32 == 0x20
    ||| c as u32 == 0x85
    ||| c as u32 == 0xa0
    ||| c as u32 == 0x1680
    ||| 0x2000 <= c as u32 <= 0x200a
    ||| c as u32 == 0x2028
    ||| c as u32 == 0x2029
    ||| c as u32 == 0x202f
    ||| c as u32 == 0x205f
    ||| c as u32 == 0x3000
}

/// `char::is_whitespace` tells whether a character has the property White_Space,
/// which Unicode gives to the characters that `is_white_space` lists.
pub assume_specification[ char::is_whitespace ](c: char) -> (res: bool)
    ensures
        res == is_white_space(c),
;

/// How many characters at the start of `s` satisfy `p`.
pub open spec fn run_len(s: Seq<char>, p: spec_fn(char) -> bool) -> nat
    decreases s.len(),
{
    if s.len() > 0 && p(s[0]) {
        1 + run_len(s.drop_first(), p)
    } else {
        0
    }
}

/// The leading run of `s` holds characters that satisfy `p`, and ends at the
/// first that does not.
proof fn lemma_run_len(s: Seq<char>, p: spec_fn(char) -> bool, n: nat)
    requires
        n <= s.len(),
        forall|i: int| 0 <= i < n ==> p(#[trigger] s[i]),
        n < s.len() ==> !p(s[n as int]),
    ensures
        run_len(s, p) == n,
    decreases s.len(),
{
    if n > 0 {
        assert(p(s[0]));
        let t = s.drop_first();
        assert forall|i: int| 0 <= i < n - 1 implies p(#[trigger] t[i]) by {
            assert(t[i] == s[i + 1]);
        }
        lemma_run_len(t, p, (n - 1) as nat);
    }
}

/// The leading run of `s` is no longer than `s`.
pub proof fn lemma_run_len_bound(s: Seq<char>, p: spec_fn(char) -> bool)
    ensures
        run_len(s, p) <= s.len(),
    decreases s.len(),
{
    if s.len() > 0 && p(s[0]) {
        lemma_run_len_bound(s.drop_first(), p);
    }
}

/// Whether a character is a quotation mark, single or double.
pub open spec fn is_quote(c: char) -> bool {
    c == '\'' || c == '"'
}

/// What stands between the quotation marks that `s` starts with. It ends at the next mark
/// of the same sort; where there is none, `s` starts with no quoted part.
pub open spec fn quoted_part(s: Seq<char>) -> Option<Seq<char>> {
    if s.len() > 0 && is_quote(s[0]) {
        let n = run_len(s.drop_first(), |c: char| c != s[0]);
        if n + 1 < s.len() {
            Some(s.subrange(1, n as int + 1))
        } else {
            None
        }
    } else {
        None
    }
}

/// The word that `s` starts with: it goes on to the first white space that is not quoted.
/// The marks around its quoted parts are dropped; a mark that is not closed stands for
/// itself.
pub open spec fn first_word(s: Seq<char>) -> Seq<char>
    decreases s.len(),
{
    match quoted_part(s) {
        Some(part) => part + first_word(s.skip(part.len() as int + 2)),
        None => if s.len() > 0 && !is_white_space(s[0]) {
            seq![s[0]] + first_word(s.drop_first())
        } else {
            Seq::empty()
        },
    }
}

/// How many characters of `s` the word takes up that `s` starts with, marks and all.
pub open spec fn first_word_len(s: Seq<char>) -> nat
    decreases s.len(),
{
    match quoted_part(s) {
        Some(part) => part.len() + 2 + first_word_len(s.skip(part.len() as int + 2)),
        None => if s.len() > 0 && !is_white_space(s[0]) {
            1 + first_word_len(s.drop_first())
        } else {
            0
        },
    }
}

/// The word that `s` starts with takes up no more than `s`, and something unless `s`
/// starts with white space.
pub proof fn lemma_first_word_len(s: Seq<char>)
    ensures
        first_word_len(s) <= s.len(),
        s.len() > 0 && !is_white_space(s[0]) ==> first_word_len(s) > 0,
    decreases s.len(),
{
    match quoted_part(s) {
        Some(part) => lemma_first_word_len(s.skip(part.len() as int + 2)),
        None => if s.len() > 0 && !is_white_space(s[0]) {
            lemma_first_word_len(s.drop_first());
        },
    }
}

/// The words of `s`, in order: `s` is split at the white space that is not quoted.
pub open spec fn words(s: Seq<char>) -> Seq<Seq<char>>
    decreases s.len(),
{
    if s.len() == 0 {
        Seq::empty()
    } else if is_white_space(s[0]) {
        words(s.drop_first())
    } else {
        proof {
            lemma_first_word_len(s);
        }
        seq![first_word(s)] + words(s.skip(first_word_len(s) as int))
    }
}

/// The maximal runs of characters of `s` that are not white space, in order.
pub open spec fn runs(s: Seq<char>) -> Seq<Seq<char>>
    decreases s.len(),
{
    if s.len() == 0 {
        Seq::empty()
    } else if is_white_space(s[0]) {
        runs(s.drop_first())
    } else {
        let n = 1 + run_len(s.drop_first(), |c: char| !is_white_space(c));
        proof {
            lemma_run_len_bound(s.drop_first(), |c: char| !is_white_space(c));
        }
        seq![s.take(n as int)] + runs(s.skip(n as int))
    }
}

/// The words of each line, line after line.
pub open spec fn all_words(lines: Seq<Seq<char>>) -> Seq<Seq<char>>
    decreases lines.len(),
{
    if lines.len() == 0 {
        Seq::empty()
    } else {
        all_words(lines.drop_last()) + words(lines.last())
    }
}

/// Takes the word that starts at `start` and says where it ends.
fn take_word(s: &str, start: usize) -> (out: (String, usize))
    requires
        start <= s@.len(),
    ensures
        out.0@ == first_word(s@.skip(start as int)),
        out.1 == start + first_word_len(s@.skip(start as int)),
        out.1 <= s@.len(),
{
    let n: usize = s.unicode_len();
    let ghost all = s@.skip(start as int);
    let mut word: String = String::new();
    let mut i: usize = start;
    assert(word@ + first_word(all) =~= first_word(all));
    while i < n && !s.get_char(i).is_whitespace()
        invariant
            n == s@.len(),
            start <= i <= n,
            all == s@.skip(start as int),
            word@ + first_word(s@.skip(i as int)) == first_word(all),
            i - start + first_word_len(s@.skip(i as int)) == first_word_len(all),
        ensures
            i < n ==> is_white_space(s@[i as int]),
        decreases n - i,
    {
        let ghost rest = s@.skip(i as int);
        let ghost had = word@;
        let mark: char = s.get_char(i);
        let mut end: usize = n;
        if mark == '\'' || mark == '"' {
            end = i + 1;
            while end < n && s.get_char(end) != mark
                invariant
                    n == s@.len(),
                    i < end <= n,
                    forall|k: int| i < k < end ==> #[trigger] s@[k] != mark,
                ensures
                    end < n ==> s@[end as int] == mark,
                decreases n - end,
            {
                end = end + 1;
            }
            proof {
                let inner = rest.drop_first();
                let len = (end - i - 1) as nat;
                assert forall|k: int| 0 <= k < len implies #[trigger] inner[k] != mark by {
                    assert(inner[k] == s@[i + 1 + k]);
                }
                lemma_run_len(inner, |c: char| c != rest[0], len);
            }
        }
        if end < n {
            word = word.concat(s.substring_char(i + 1, end));
            proof {
                let part = rest.subrange(1, end - i);
                assert(quoted_part(rest) == Some(part));
                assert(s@.subrange(i + 1, end as int) =~= part);
                assert(rest.skip(part.len() as int + 2) =~= s@.skip(end + 1));
                assert(word@ + first_word(s@.skip(end + 1)) =~= had + first_word(rest));
            }
            i = end + 1;
        } else {
            word = word.concat(s.substring_char(i, i + 1));
            proof {
                assert(quoted_part(rest) is None);
                assert(s@.subrange(i as int, i + 1) =~= seq![rest[0]]);
                assert(rest.drop_first() =~= s@.skip(i + 1));
                assert(word@ + first_word(s@.skip(i + 1)) =~= had + first_word(rest));
            }
            i = i + 1;
        }
    }
    proof {
        let rest = s@.skip(i as int);
        assert(rest.len() > 0 ==> is_white_space(rest[0]));
        assert(first_word(rest) =~= Seq::empty());
        assert(word@ + first_word(rest) =~= word@);
    }
    (word, i)
}

/// Splits `s` into its words and appends them to `out`.
pub fn push_words(out: &mut Vec<String>, s: &str)
    ensures
        texts(final(out)@) == texts(old(out)@) + words(s@),
{
    let n: usize = s.unicode_len();
    let mut i: usize = 0;
    let ghost before = texts(out@);
    assert(s@.skip(0) =~= s@);
    assert(before + words(s@) =~= texts(out@) + words(s@.skip(0)));
    while i < n
        invariant
            n == s@.len(),
            i <= n,
            before + words(s@) == texts(out@) + words(s@.skip(i as int)),
        decreases n - i,
    {
        let ghost rest = s@.skip(i as int);
        if s.get_char(i).is_whitespace() {
            assert(rest.drop_first() =~= s@.skip(i + 1));
            i = i + 1;
        } else {
            let (word, end): (String, usize) = take_word(s, i);
            let ghost had = texts(out@);
            out.push(word);
            proof {
                lemma_first_word_len(rest);
                assert(rest.skip(first_word_len(rest) as int) =~= s@.skip(end as int));
                assert(words(rest) == seq![word@] + words(s@.skip(end as int)));
                assert(texts(out@) =~= had + seq![word@]);
                assert(had + words(rest) =~= texts(out@) + words(s@.skip(end as int)));
            }
            i = end;
        }
    }
    assert(words(s@.skip(n as int)) =~= Seq::<Seq<char>>::empty());
    assert(texts(out@) + words(s@.skip(n as int)) =~= texts(out@));
}

/// The words of all the lines.
pub fn split_lines(lines: &Vec<String>) -> (out: Vec<String>)
    ensures
        texts(out@) == all_words(texts(lines@)),
{
    let mut out: Vec<String> = Vec::new();
    let mut i: usize = 0;
    assert(texts(out@) =~= all_words(texts(lines@).take(0)));
    while i < lines.len()
        invariant
            i <= lines.len(),
            texts(out@) == all_words(texts(lines@).take(i as int)),
        decreases lines.len() - i,
    {
        push_words(&mut out, lines[i].as_str());
        proof {
            let all = texts(lines@);
            assert(all.take(i + 1).drop_last() =~= all.take(i as int));
        }
        i = i + 1;
    }
    assert(texts(lines@).take(i as int) =~= texts(lines@));
    out
}

/// Whether a text holds no quotation mark.
pub open spec fn is_unquoted(s: Seq<char>) -> bool {
    forall|i: int| 0 <= i < s.len() ==> !is_quote(#[trigger] s[i])
}

proof fn lemma_unquoted_word(s: Seq<char>)
    requires
        is_unquoted(s),
    ensures
        first_word_len(s) == run_len(s, |c: char| !is_white_space(c)),
        first_word(s) == s.take(first_word_len(s) as int),
    decreases s.len(),
{
    lemma_first_word_len(s);
    if s.len() > 0 && !is_white_space(s[0]) {
        let t = s.drop_first();
        assert forall|i: int| 0 <= i < t.len() implies !is_quote(#[trigger] t[i]) by {
            assert(t[i] == s[i + 1]);
        }
        lemma_unquoted_word(t);
        lemma_first_word_len(t);
        assert(first_word(s) =~= s.take(first_word_len(s) as int));
    } else {
        assert(first_word(s) =~= s.take(0));
    }
}

/// The words of a text without quotation marks are its runs of characters that are not
/// white space.
pub proof fn law_unquoted_texts_are_split_at_white_space(s: Seq<char>)
    requires
        is_unquoted(s),
    ensures
        words(s) == runs(s),
    decreases s.len(),
{
    if s.len() > 0 {
        if is_white_space(s[0]) {
            let t = s.drop_first();
            assert forall|i: int| 0 <= i < t.len() implies !is_quote(#[trigger] t[i]) by {
                assert(t[i] == s[i + 1]);
            }
            law_unquoted_texts_are_split_at_white_space(t);
        } else {
            let p = |c: char| !is_white_space(c);
            let n = 1 + run_len(s.drop_first(), p);
            assert(run_len(s, p) == n);
            lemma_unquoted_word(s);
            lemma_first_word_len(s);
            let t = s.skip(n as int);
            assert forall|i: int| 0 <= i < t.len() implies !is_quote(#[trigger] t[i]) by {
                assert(t[i] == s[i + n]);
            }
            law_unquoted_texts_are_split_at_white_space(t);
        }
    }
}

/// A text without white space and quotation marks is one word.
pub proof fn law_a_plain_text_is_one_word(s: Seq<char>)
    requires
        s.len() > 0,
        is_unquoted(s),
        forall|i: int| 0 <= i < s.len() ==> !is_white_space(#[trigger] s[i]),
    ensures
        words(s) == seq![s],
{
    lemma_unquoted_word(s);
    lemma_run_len(s, |c: char| !is_white_space(c), s.len());
    assert(s.take(s.len() as int) =~= s);
    assert(words(s.skip(s.len() as int)) =~= Seq::empty());
    assert(words(s) =~= seq![s]);
}

/// What stands between two quotation marks is one word, white space and all.
pub proof fn law_a_quoted_part_is_one_word(mark: char, part: Seq<char>)
    requires
        is_quote(mark),
        !part.contains(mark),
    ensures
        words(seq![mark] + part + seq![mark]) == seq![part],
{
    let s = seq![mark] + part + seq![mark];
    let inner = s.drop_first();
    assert forall|i: int| 0 <= i < part.len() implies #[trigger] inner[i] != mark by {
        assert(inner[i] == part[i]);
        assert(part.contains(part[i]));
    }
    assert(inner[part.len() as int] == mark);
    lemma_run_len(inner, |c: char| c != s[0], part.len());
    assert(s.subrange(1, part.len() as int + 1) =~= part);
    assert(quoted_part(s) == Some(part));
    let none = s.skip(part.len() as int + 2);
    assert(none =~= Seq::empty());
    assert(first_word(none) =~= Seq::empty());
    assert(first_word(s) =~= part);
    assert(first_word_len(none) == 0);
    assert(first_word_len(s) == s.len());
    assert(s.skip(s.len() as int) =~= none);
    assert(words(none) =~= Seq::empty());
    assert(words(s) =~= seq![part]);
}

proof fn lemma_word_ends_at_white_space(a: Seq<char>, c: char, b: Seq<char>)
    requires
        is_unquoted(a),
        is_white_space(c),
    ensures
        first_word(a + seq![c] + b) == first_word(a),
        first_word_len(a + seq![c] + b) == first_word_len(a),
    decreases a.len(),
{
    let s = a + seq![c] + b;
    if a.len() == 0 {
        assert(s[0] == c);
        assert(first_word(s) =~= first_word(a));
    } else if !is_white_space(a[0]) {
        let t = a.drop_first();
        assert(s[0] == a[0]);
        assert(s.drop_first() =~= t + seq![c] + b);
        assert forall|i: int| 0 <= i < t.len() implies !is_quote(#[trigger] t[i]) by {
            assert(t[i] == a[i + 1]);
        }
        lemma_word_ends_at_white_space(t, c, b);
    } else {
        assert(s[0] == a[0]);
    }
}

/// White space behind a text without quotation marks parts its words from those that
/// follow, which may be quoted.
pub proof fn law_white_space_parts_words(a: Seq<char>, c: char, b: Seq<char>)
    requires
        is_unquoted(a),
        is_white_space(c),
    ensures
        words(a + seq![c] + b) == words(a) + words(b),
    decreases a.len(),
{
    let s = a + seq![c] + b;
    if a.len() == 0 {
        assert(s.drop_first() =~= b);
        assert(words(a) + words(b) =~= words(b));
    } else if is_white_space(a[0]) {
        let t = a.drop_first();
        assert(s.drop_first() =~= t + seq![c] + b);
        assert forall|i: int| 0 <= i < t.len() implies !is_quote(#[trigger] t[i]) by {
            assert(t[i] == a[i + 1]);
        }
        law_white_space_parts_words(t, c, b);
    } else {
        let n = first_word_len(a) as int;
        let t = a.skip(n);
        lemma_first_word_len(a);
        lemma_word_ends_at_white_space(a, c, b);
        assert(s[0] == a[0]);
        assert(s.skip(n) =~= t + seq![c] + b);
        assert forall|i: int| 0 <= i < t.len() implies !is_quote(#[trigger] t[i]) by {
            assert(t[i] == a[i + n]);
        }
        law_white_space_parts_words(t, c, b);
        assert(words(s) =~= words(a) + words(b));
    }
}

/// No run is empty, and none holds white space.
proof fn lemma_runs_hold_no_white_space(s: Seq<char>)
    ensures
        forall|i: int, k: int|
            0 <= i < runs(s).len() && 0 <= k < runs(s)[i].len() ==> !is_white_space(
                #[trigger] runs(s)[i][k],
            ),
        forall|i: int| 0 <= i < runs(s).len() ==> (#[trigger] runs(s)[i]).len() > 0,
    decreases s.len(),
{
    if s.len() > 0 {
        if is_white_space(s[0]) {
            lemma_runs_hold_no_white_space(s.drop_first());
            assert(runs(s) == runs(s.drop_first()));
        } else {
            let p = |c: char| !is_white_space(c);
            let n = 1 + run_len(s.drop_first(), p);
            lemma_run_len_bound(s.drop_first(), p);
            lemma_run_satisfies(s.drop_first(), p);
            lemma_runs_hold_no_white_space(s.skip(n as int));
            let first = s.take(n as int);
            assert forall|k: int| 0 <= k < n implies !is_white_space(#[trigger] first[k]) by {
                if k > 0 {
                    assert(p(s.drop_first()[k - 1]));
                }
            }
            let rest = runs(s.skip(n as int));
            assert(runs(s) =~= seq![first] + rest);
            assert forall|i: int| 0 <= i < runs(s).len() implies (#[trigger] runs(s)[i]).len()
                > 0 by {
                if i > 0 {
                    assert(runs(s)[i] == rest[i - 1]);
                }
            }
            assert forall|i: int, k: int|
                0 <= i < runs(s).len() && 0 <= k < runs(s)[i].len() implies !is_white_space(
                #[trigger] runs(s)[i][k],
            ) by {
                if i > 0 {
                    assert(runs(s)[i] == rest[i - 1]);
                    assert(!is_white_space(rest[i - 1][k]));
                } else {
                    assert(runs(s)[i] == first);
                }
            }
        }
    } else {
        assert(runs(s).len() == 0);
    }
}

/// No word of a text without quotation marks is empty, and none holds white space.
pub proof fn law_words_hold_no_white_space(s: Seq<char>)
    requires
        is_unquoted(s),
    ensures
        forall|i: int, k: int|
            0 <= i < words(s).len() && 0 <= k < words(s)[i].len() ==> !is_white_space(
                #[trigger] words(s)[i][k],
            ),
        forall|i: int| 0 <= i < words(s).len() ==> (#[trigger] words(s)[i]).len() > 0,
{
    law_unquoted_texts_are_split_at_white_space(s);
    lemma_runs_hold_no_white_space(s);
}

proof fn lemma_run_satisfies(s: Seq<char>, p: spec_fn(char) -> bool)
    ensures
        forall|i: int| 0 <= i < run_len(s, p) ==> p(#[trigger] s[i]),
    decreases s.len(),
{
    if s.len() > 0 && p(s[0]) {
        let t = s.drop_first();
        lemma_run_satisfies(t, p);
        lemma_run_len_bound(t, p);
        assert forall|i: int| 0 <= i < run_len(s, p) implies p(#[trigger] s[i]) by {
            if i > 0 {
                assert(t[i - 1] == s[i]);
            }
        }
    }
}

/// `s` without the white space at its end.
pub open spec fn trim_end(s: Seq<char>) -> Seq<char>
    decreases s.len(),
{
    if s.len() > 0 && is_white_space(s.last()) {
        trim_end(s.drop_last())
    } else {
        s
    }
}

/// `s` without the white space at its start and at its end.
pub open spec fn trimmed(s: Seq<char>) -> Seq<char> {
    trim_end(s.skip(run_len(s, |c: char| is_white_space(c)) as int))
}

/// The text without the white space at its start and at its end.
pub fn trim(s: &str) -> (out: String)
    ensures
        out@ == trimmed(s@),
{
    let n: usize = s.unicode_len();
    let mut from: usize = 0;
    while from < n && s.get_char(from).is_whitespace()
        invariant
            n == s@.len(),
            from <= n,
            forall|k: int| 0 <= k < from ==> is_white_space(#[trigger] s@[k]),
        ensures
            from < n ==> !is_white_space(s@[from as int]),
        decreases n - from,
    {
        from = from + 1;
    }
    proof {
        lemma_run_len(s@, |c: char| is_white_space(c), from as nat);
    }
    let mut to: usize = n;
    let ghost rest = s@.skip(from as int);
    assert(s@.subrange(from as int, to as int) =~= rest);
    while to > from && s.get_char(to - 1).is_whitespace()
        invariant
            n == s@.len(),
            from <= to <= n,
            trim_end(s@.subrange(from as int, to as int)) == trim_end(rest),
        ensures
            to > from ==> !is_white_space(s@[to - 1]),
        decreases to,
    {
        proof {
            assert(s@.subrange(from as int, to as int).drop_last() =~= s@.subrange(
                from as int,
                to - 1,
            ));
        }
        to = to - 1;
    }
    s.substring_char(from, to).to_owned()
}

/// What stands before and after the first `=` of `s`.
pub open spec fn key_value(s: Seq<char>) -> Option<(Seq<char>, Seq<char>)> {
    let at = run_len(s, |c: char| c != '=');
    if at < s.len() {
        Some((s.take(at as int), s.skip(at as int + 1)))
    } else {
        None
    }
}

/// A variable comes out as it was set: the key ends at the first equals sign, and the
/// value holds the others.
pub proof fn law_variables_are_read_back(key: Seq<char>, value: Seq<char>)
    requires
        !key.contains('='),
    ensures
        key_value(key + seq!['='] + value) == Some((key, value)),
{
    let s = key + seq!['='] + value;
    assert forall|i: int| 0 <= i < key.len() implies #[trigger] s[i] != '=' by {
        assert(key.contains(key[i]));
    }
    lemma_run_len(s, |c: char| c != '=', key.len());
    assert(s.take(key.len() as int) =~= key);
    assert(s.skip(key.len() as int + 1) =~= value);
}

/// Splits the text at its first `=`.
pub fn split_once(s: &str) -> (out: Option<(String, String)>)
    ensures
        match out {
            Some((key, value)) => key_value(s@) == Some((key@, value@)),
            None => key_value(s@) is None,
        },
{
    let n: usize = s.unicode_len();
    let mut at: usize = 0;
    while at < n && s.get_char(at) != '='
        invariant
            n == s@.len(),
            at <= n,
            forall|k: int| 0 <= k < at ==> #[trigger] s@[k] != '=',
        ensures
            at < n ==> s@[at as int] == '=',
        decreases n - at,
    {
        at = at + 1;
    }
    proof {
        lemma_run_len(s@, |c: char| c != '=', at as nat);
    }
    if at < n {
        let key: String = s.substring_char(0, at).to_owned();
        let value: String = s.substring_char(at + 1, n).to_owned();
        assert(key@ =~= s@.take(at as int));
        assert(value@ =~= s@.skip(at + 1));
        Some((key, value))
    } else {
        None
    }
}

/// The decimal digit for `d`.
pub open spec fn digit(d: nat) -> char {
    (48 + d) as char
}

/// `n` in decimal, without leading zeros.
pub open spec fn digits(n: nat) -> Seq<char>
    decreases n,
{
    if n < 10 {
        seq![digit(n)]
    } else {
        digits(n / 10).push(digit(n % 10))
    }
}

/// `n` in decimal, with a leading `-` where it is negative.
pub open spec fn decimal(n: int) -> Seq<char> {
    if n < 0 {
        seq!['-'] + digits((-n) as nat)
    } else {
        digits(n as nat)
    }
}

fn digit_text(d: u64) -> (out: &'static str)
    requires
        d < 10,
    ensures
        out@ == seq![digit(d as nat)],
{
    proof {
        reveal_strlit("0");
        reveal_strlit("1");
        reveal_strlit("2");
        reveal_strlit("3");
        reveal_strlit("4");
        reveal_strlit("5");
        reveal_strlit("6");
        reveal_strlit("7");
        reveal_strlit("8");
        reveal_strlit("9");
    }
    let out: &'static str = if d == 0 {
        "0"
    } else if d == 1 {
        "1"
    } else if d == 2 {
        "2"
    } else if d == 3 {
        "3"
    } else if d == 4 {
        "4"
    } else if d == 5 {
        "5"
    } else if d == 6 {
        "6"
    } else if d == 7 {
        "7"
    } else if d == 8 {
        "8"
    } else {
        "9"
    };
    assert(out@ =~= seq![digit(d as nat)]);
    out
}

/// `n` in decimal.
pub fn natural_text(n: u64) -> (out: String)
    ensures
        out@ == digits(n as nat),
    decreases n,
{
    if n < 10 {
        digit_text(n).to_owned()
    } else {
        let head: String = natural_text(n / 10);
        let out: String = head.concat(digit_text(n % 10));
        assert(out@ =~= digits((n / 10) as nat).push(digit((n % 10) as nat)));
        out
    }
}

/// `n` in decimal.
pub fn integer_text(n: i64) -> (out: String)
    ensures
        out@ == decimal(n as int),
{
    if n < 0 {
        proof {
            reveal_strlit("-");
        }
        let size: u64 = (-(n as i128)) as u64;
        let out: String = "-".to_owned().concat(natural_text(size).as_str());
        assert(out@ =~= seq!['-'] + digits((-(n as int)) as nat));
        out
    } else {
        natural_text(n as u64)
    }
}

/// Different numbers have different decimal texts.
pub proof fn law_digits_tell_numbers_apart(m: nat, n: nat)
    requires
        digits(m) == digits(n),
    ensures
        m == n,
    decreases m,
{
    lemma_digits_len(m);
    lemma_digits_len(n);
    if m < 10 {
        if n >= 10 {
            assert(digits(n).len() == digits(n / 10).len() + 1);
            lemma_digits_len(n / 10);
        }
        assert(digits(m)[0] == digit(m));
        assert(digits(n)[0] == digit(n));
    } else {
        if n < 10 {
            assert(digits(m).len() == digits(m / 10).len() + 1);
            lemma_digits_len(m / 10);
        }
        assert(digits(m).last() == digit(m % 10));
        assert(digits(n).last() == digit(n % 10));
        assert(digits(m).drop_last() =~= digits(m / 10));
        assert(digits(n).drop_last() =~= digits(n / 10));
        law_digits_tell_numbers_apart(m / 10, n / 10);
    }
}

proof fn lemma_digits_len(n: nat)
    ensures
        digits(n).len() > 0,
    decreases n,
{
    if n >= 10 {
        lemma_digits_len(n / 10);
    }
}

/// The path `path`, read from the directory `base`: an absolute path stands for
/// itself, any other is appended behind a `/`.
pub open spec fn joined(base: Seq<char>, path: Seq<char>) -> Seq<char> {
    if is_absolute(path) || base.len() == 0 {
        path
    } else if base.last() == '/' {
        base + path
    } else {
        base.push('/') + path
    }
}

/// A path is absolute where it starts at the root directory.
pub open spec fn is_absolute(path: Seq<char>) -> bool {
    path.len() > 0 && path[0] == '/'
}

/// Joins a path onto the directory that it is read from.
pub fn join(base: &str, path: &str) -> (out: String)
    ensures
        out@ == joined(base@, path@),
{
    let n: usize = base.unicode_len();
    let absolute: bool = path.unicode_len() > 0 && path.get_char(0) == '/';
    if absolute || n == 0 {
        path.to_owned()
    } else if base.get_char(n - 1) == '/' {
        base.to_owned().concat(path)
    } else {
        proof {
            reveal_strlit("/");
        }
        let out: String = base.to_owned().concat("/").concat(path);
        assert(out@ =~= base@.push('/') + path@);
        out
    }
}

/// The directory that a path lies in: what stands before its last slash, or the root
/// directory if that is nothing. A path without a slash lies in the current directory,
/// which is the empty path.
pub open spec fn directory(path: Seq<char>) -> Seq<char>
    decreases path.len(),
{
    if path.len() == 0 {
        path
    } else if path.last() != '/' {
        directory(path.drop_last())
    } else if path.len() == 1 {
        path
    } else {
        path.drop_last()
    }
}

/// The directory that a path lies in.
pub fn parent(path: &str) -> (out: String)
    ensures
        out@ == directory(path@),
{
    let n: usize = path.unicode_len();
    let mut end: usize = n;
    assert(path@.take(n as int) =~= path@);
    while end > 0 && path.get_char(end - 1) != '/'
        invariant
            n == path@.len(),
            end <= n,
            directory(path@) == directory(path@.take(end as int)),
        ensures
            end > 0 ==> path@[end - 1] == '/',
        decreases end,
    {
        assert(path@.take(end as int).drop_last() =~= path@.take(end - 1));
        end = end - 1;
    }
    if end > 1 {
        assert(path@.take(end as int).drop_last() =~= path@.take(end - 1));
        end = end - 1;
    }
    assert(path@.subrange(0, end as int) =~= path@.take(end as int));
    path.substring_char(0, end).to_owned()
}

/// A file lies in the directory that its path names before its own name.
pub proof fn law_a_file_lies_in_its_directory(dir: Seq<char>, name: Seq<char>)
    requires
        dir.len() > 0,
        !name.contains('/'),
    ensures
        directory(dir.push('/') + name) == dir,
    decreases name.len(),
{
    let path = dir.push('/') + name;
    if name.len() == 0 {
        assert(path =~= dir.push('/'));
        assert(path.drop_last() =~= dir);
    } else {
        let less = name.drop_last();
        assert(name.contains(name.last()));
        assert forall|i: int| 0 <= i < less.len() implies #[trigger] less[i] != '/' by {
            assert(name.contains(name[i]));
        }
        assert(path.drop_last() =~= dir.push('/') + less);
        law_a_file_lies_in_its_directory(dir, less);
    }
}

/// The directory of an absolute path is absolute.
pub proof fn law_directories_stay_absolute(path: Seq<char>)
    requires
        is_absolute(path),
    ensures
        is_absolute(directory(path)),
    decreases path.len(),
{
    if path.last() != '/' {
        law_directories_stay_absolute(path.drop_last());
    }
}

/// What `str::to_lowercase` makes of a text.
pub uninterp spec fn lowercase(s: Seq<char>) -> Seq<char>;

/// The lower case of an ASCII character.
pub open spec fn ascii_lower(c: char) -> char {
    if 'A' <= c <= 'Z' {
        (c as u32 + 32) as char
    } else {
        c
    }
}

/// Every character is ASCII.
pub open spec fn is_ascii_text(s: Seq<char>) -> bool {
    forall|i: int| 0 <= i < s.len() ==> (#[trigger] s[i] as u32) < 128
}

/// `str::to_lowercase`: a function of the text alone, which maps an ASCII text
/// letter by letter. What it makes of other texts, Unicode's tables say.
#[verifier::external_body]
pub(crate) fn to_lowercase(s: &str) -> (out: String)
    ensures
        out@ == lowercase(s@),
        is_ascii_text(s@) ==> out@ == Seq::new(s@.len(), |i: int| ascii_lower(s@[i])),
{
    s.to_lowercase()
}

/// How a path is written between quotation marks, by `Path`'s `Debug`.
pub uninterp spec fn quoted_path(path: Seq<char>) -> Seq<char>;

/// `Path`'s `Debug`: a function of the path. How it writes characters that cannot be
/// printed is not said here.
#[verifier::external_body]
pub(crate) fn quote_path(path: &str) -> (out: String)
    ensures
        out@ == quoted_path(path@),
{
    format!("{:?}", std::path::Path::new(path))
}

/// Whether two texts hold the same characters.
pub fn same_text(a: &str, b: &str) -> (same: bool)
    ensures
        same == (a@ == b@),
{
    a.to_owned() == b.to_owned()
}

/// A copy of a list of texts.
pub fn copy_texts(list: &Vec<String>) -> (out: Vec<String>)
    ensures
        texts(out@) == texts(list@),
{
    let mut out: Vec<String> = Vec::new();
    let mut i: usize = 0;
    while i < list.len()
        invariant
            i <= list.len(),
            out.len() == i,
            forall|k: int| 0 <= k < i ==> out@[k]@ == list@[k]@,
        decreases list.len() - i,
    {
        out.push(list[i].clone());
        i = i + 1;
    }
    assert(texts(out@) =~= texts(list@));
    out
}

/// The two texts in a row.
pub fn joint(a: &str, b: &str) -> (out: String)
    ensures
        out@ == a@ + b@,
{
    a.to_owned().concat(b)
}

/// The words of lists of lines in a row are those of the one list and then those of the
/// other.
pub proof fn law_lines_add_up(a: Seq<Seq<char>>, b: Seq<Seq<char>>)
    ensures
        all_words(a + b) == all_words(a) + all_words(b),
    decreases b.len(),
{
    if b.len() == 0 {
        assert(a + b =~= a);
        assert(all_words(a) + all_words(b) =~= all_words(a));
    } else {
        assert((a + b).drop_last() =~= a + b.drop_last());
        law_lines_add_up(a, b.drop_last());
        assert(all_words(a + b) =~= all_words(a) + all_words(b));
    }
}

/// A single line gives its words.
pub proof fn law_one_line_gives_its_words(line: Seq<char>)
    ensures
        all_words(seq![line]) == words(line),
{
    assert(seq![line].drop_last() =~= Seq::empty());
    assert(all_words(Seq::empty()) =~= Seq::empty());
    assert(all_words(seq![line]) =~= words(line));
}

/// A list of plain texts, however long, gives just these texts, in order.
pub proof fn law_plain_texts_stay_as_they_are(lines: Seq<Seq<char>>)
    requires
        forall|i: int|
            0 <= i < lines.len() ==> (#[trigger] lines[i]).len() > 0 && is_unquoted(lines[i])
                && is_black(lines[i]),
    ensures
        all_words(lines) == lines,
    decreases lines.len(),
{
    if lines.len() > 0 {
        let less = lines.drop_last();
        assert forall|i: int| 0 <= i < less.len() implies (#[trigger] less[i]).len() > 0
            && is_unquoted(less[i]) && is_black(less[i]) by {
            assert(less[i] == lines[i]);
        }
        law_plain_texts_stay_as_they_are(less);
        law_a_plain_text_is_one_word(lines.last());
        assert(all_words(lines) =~= lines);
    } else {
        assert(all_words(lines) =~= lines);
    }
}

/// Whether a text holds no white space.
pub open spec fn is_black(s: Seq<char>) -> bool {
    forall|i: int| 0 <= i < s.len() ==> !is_white_space(#[trigger] s[i])
}

/// Whether a text holds nothing but white space.
pub open spec fn is_blank(s: Seq<char>) -> bool {
    forall|i: int| 0 <= i < s.len() ==> is_white_space(#[trigger] s[i])
}

proof fn lemma_plain_start(a: Seq<char>, b: Seq<char>)
    requires
        is_unquoted(a),
        is_black(a),
    ensures
        first_word(a + b) == a + first_word(b),
        first_word_len(a + b) == a.len() + first_word_len(b),
    decreases a.len(),
{
    if a.len() == 0 {
        assert(a + b =~= b);
        assert(a + first_word(b) =~= first_word(b));
    } else {
        let t = a.drop_first();
        assert forall|i: int| 0 <= i < t.len() implies !is_quote(#[trigger] t[i])
            && !is_white_space(t[i]) by {
            assert(t[i] == a[i + 1]);
        }
        lemma_plain_start(t, b);
        assert((a + b)[0] == a[0]);
        assert((a + b).drop_first() =~= t + b);
        assert(first_word(a + b) =~= a + first_word(b));
    }
}

proof fn lemma_quoted_start(mark: char, part: Seq<char>, b: Seq<char>)
    requires
        is_quote(mark),
        !part.contains(mark),
    ensures
        quoted_part(seq![mark] + part + seq![mark] + b) == Some(part),
        (seq![mark] + part + seq![mark] + b).skip(part.len() as int + 2) == b,
{
    let s = seq![mark] + part + seq![mark] + b;
    let inner = s.drop_first();
    assert forall|i: int| 0 <= i < part.len() implies #[trigger] inner[i] != mark by {
        assert(inner[i] == part[i]);
        assert(part.contains(part[i]));
    }
    assert(inner[part.len() as int] == mark);
    lemma_run_len(inner, |c: char| c != s[0], part.len());
    assert(s.subrange(1, part.len() as int + 1) =~= part);
    assert(s.skip(part.len() as int + 2) =~= b);
}

/// A quoted part belongs to the word that it stands in: what is before it and behind it
/// joins it, and its marks are gone.
pub proof fn law_a_quoted_part_joins_its_word(
    a: Seq<char>,
    mark: char,
    part: Seq<char>,
    b: Seq<char>,
)
    requires
        is_unquoted(a),
        is_black(a),
        is_quote(mark),
        !part.contains(mark),
        is_unquoted(b),
        is_black(b),
    ensures
        words(a + (seq![mark] + part + seq![mark] + b)) == seq![a + part + b],
{
    let q = seq![mark] + part + seq![mark] + b;
    let s = a + q;
    let none = Seq::<char>::empty();
    lemma_quoted_start(mark, part, b);
    lemma_plain_start(a, q);
    lemma_plain_start(b, none);
    assert(b + none =~= b);
    assert(first_word(none) =~= none);
    assert(first_word_len(none) == 0);
    assert(first_word(b) =~= b);
    assert(first_word(s) =~= a + part + b);
    assert(first_word_len(s) == s.len());
    assert(s.skip(s.len() as int) =~= none);
    assert(words(none) =~= Seq::empty());
    assert(s.len() > 0 && !is_white_space(s[0])) by {
        if a.len() > 0 {
            assert(s[0] == a[0]);
        } else {
            assert(s[0] == mark);
        }
    }
    assert(words(s) =~= seq![a + part + b]);
}

/// Whether every quotation mark in a text that begins a quoted part has its match.
pub open spec fn is_balanced(s: Seq<char>) -> bool
    decreases s.len(),
{
    match quoted_part(s) {
        Some(part) => is_balanced(s.skip(part.len() as int + 2)),
        None => s.len() == 0 || !is_quote(s[0]) && is_balanced(s.drop_first()),
    }
}

proof fn lemma_quoted_part_stays(a: Seq<char>, b: Seq<char>)
    requires
        quoted_part(a) is Some,
    ensures
        quoted_part(a + b) == quoted_part(a),
{
    let part = quoted_part(a)->0;
    let n = run_len(a.drop_first(), |c: char| c != a[0]);
    let mark = a[0];
    let rest = a.skip(n as int + 2);
    lemma_run_stops(a.drop_first(), |c: char| c != a[0]);
    assert(a[n as int + 1] == mark);
    assert(a =~= seq![mark] + part + seq![mark] + rest);
    lemma_run_satisfies(a.drop_first(), |c: char| c != a[0]);
    assert forall|i: int| 0 <= i < part.len() implies #[trigger] part[i] != mark by {
        assert(part[i] == a.drop_first()[i]);
    }
    assert(a + b =~= seq![mark] + part + seq![mark] + (rest + b));
    lemma_quoted_start(mark, part, rest + b);
}

proof fn lemma_run_stops(s: Seq<char>, p: spec_fn(char) -> bool)
    ensures
        run_len(s, p) < s.len() ==> !p(s[run_len(s, p) as int]),
    decreases s.len(),
{
    if s.len() > 0 && p(s[0]) {
        lemma_run_stops(s.drop_first(), p);
    }
}

proof fn lemma_balanced_word_ends(a: Seq<char>, c: char, b: Seq<char>)
    requires
        is_balanced(a),
        is_white_space(c),
    ensures
        first_word(a + seq![c] + b) == first_word(a),
        first_word_len(a + seq![c] + b) == first_word_len(a),
        is_balanced(a.skip(first_word_len(a) as int)),
    decreases a.len(),
{
    let s = a + seq![c] + b;
    let behind = seq![c] + b;
    assert(s =~= a + behind);
    lemma_first_word_len(a);
    match quoted_part(a) {
        Some(part) => {
            let t = a.skip(part.len() as int + 2);
            lemma_quoted_part_stays(a, behind);
            lemma_balanced_word_ends(t, c, b);
            lemma_first_word_len(t);
            assert(s.skip(part.len() as int + 2) =~= t + seq![c] + b);
            assert(a.skip(first_word_len(a) as int) =~= t.skip(first_word_len(t) as int));
        },
        None => {
            if a.len() == 0 {
                assert(s[0] == c);
                assert(first_word(s) =~= first_word(a));
                assert(a.skip(0) =~= a);
            } else {
                assert(s[0] == a[0]);
                if !is_white_space(a[0]) {
                    let t = a.drop_first();
                    lemma_balanced_word_ends(t, c, b);
                    lemma_first_word_len(t);
                    assert(s.drop_first() =~= t + seq![c] + b);
                    assert(a.skip(first_word_len(a) as int) =~= t.skip(first_word_len(t) as int));
                } else {
                    assert(a.skip(0) =~= a);
                }
            }
        },
    }
}

/// White space behind a text whose quotation marks all have their match parts its words
/// from those that follow.
pub proof fn law_white_space_parts_quoted_words(a: Seq<char>, c: char, b: Seq<char>)
    requires
        is_balanced(a),
        is_white_space(c),
    ensures
        words(a + seq![c] + b) == words(a) + words(b),
    decreases a.len(),
{
    let s = a + seq![c] + b;
    if a.len() == 0 {
        assert(s.drop_first() =~= b);
        assert(words(a) + words(b) =~= words(b));
    } else if is_white_space(a[0]) {
        let t = a.drop_first();
        assert(s[0] == a[0]);
        assert(s.drop_first() =~= t + seq![c] + b);
        assert(quoted_part(a) is None);
        law_white_space_parts_quoted_words(t, c, b);
    } else {
        let n = first_word_len(a) as int;
        lemma_first_word_len(a);
        lemma_balanced_word_ends(a, c, b);
        assert(s[0] == a[0]);
        assert(s.skip(n) =~= a.skip(n) + seq![c] + b);
        law_white_space_parts_quoted_words(a.skip(n), c, b);
        assert(words(s) =~= words(a) + words(b));
    }
}

/// A quotation mark without a match stands for itself: the words are those of the text as
/// it is.
pub proof fn law_a_lone_mark_stands_for_itself(a: Seq<char>, mark: char, b: Seq<char>)
    requires
        is_unquoted(a),
        is_unquoted(b),
        is_quote(mark),
    ensures
        words(a + seq![mark] + b) == runs(a + seq![mark] + b),
{
    let s = a + seq![mark] + b;
    assert forall|i: int|
        0 <= i < s.len() && is_quote(#[trigger] s[i]) implies i == a.len() by {
        if i < a.len() {
            assert(s[i] == a[i]);
        } else if i > a.len() {
            assert(s[i] == b[i - a.len() - 1]);
        }
    }
    lemma_few_marks(s, a.len() as int);
}

/// A text with a quotation mark at `at` at most has no quoted part.
proof fn lemma_few_marks(s: Seq<char>, at: int)
    requires
        forall|i: int| 0 <= i < s.len() && is_quote(#[trigger] s[i]) ==> i == at,
    ensures
        words(s) == runs(s),
    decreases s.len(),
{
    if s.len() > 0 {
        if is_white_space(s[0]) {
            let t = s.drop_first();
            assert forall|i: int| 0 <= i < t.len() && is_quote(#[trigger] t[i]) implies i == at
                - 1 by {
                assert(t[i] == s[i + 1]);
            }
            lemma_few_marks(t, at - 1);
        } else {
            let p = |c: char| !is_white_space(c);
            let n = 1 + run_len(s.drop_first(), p);
            assert(run_len(s, p) == n);
            lemma_few_marks_word(s, at);
            lemma_first_word_len(s);
            let t = s.skip(n as int);
            assert forall|i: int| 0 <= i < t.len() && is_quote(#[trigger] t[i]) implies i == at
                - n by {
                assert(t[i] == s[i + n]);
            }
            lemma_few_marks(t, at - n);
        }
    }
}

proof fn lemma_few_marks_word(s: Seq<char>, at: int)
    requires
        forall|i: int| 0 <= i < s.len() && is_quote(#[trigger] s[i]) ==> i == at,
    ensures
        first_word_len(s) == run_len(s, |c: char| !is_white_space(c)),
        first_word(s) == s.take(first_word_len(s) as int),
    decreases s.len(),
{
    lemma_first_word_len(s);
    assert(quoted_part(s) is None) by {
        if s.len() > 0 && is_quote(s[0]) {
            let t = s.drop_first();
            assert forall|i: int| 0 <= i < t.len() implies #[trigger] t[i] != s[0] by {
                assert(t[i] == s[i + 1]);
            }
            lemma_run_len(t, |c: char| c != s[0], t.len());
        }
    }
    if s.len() > 0 && !is_white_space(s[0]) {
        let t = s.drop_first();
        assert forall|i: int| 0 <= i < t.len() && is_quote(#[trigger] t[i]) implies i == at - 1 by {
            assert(t[i] == s[i + 1]);
        }
        lemma_few_marks_word(t, at - 1);
        lemma_first_word_len(t);
        assert(first_word(s) =~= s.take(first_word_len(s) as int));
    } else {
        assert(first_word(s) =~= s.take(0));
    }
}

/// Runs end at white space: white space parts those of what is before it from those of
/// what is behind it.
pub proof fn law_white_space_parts_runs(a: Seq<char>, c: char, b: Seq<char>)
    requires
        is_white_space(c),
    ensures
        runs(a + seq![c] + b) == runs(a) + runs(b),
    decreases a.len(),
{
    let s = a + seq![c] + b;
    let p = |c: char| !is_white_space(c);
    if a.len() == 0 {
        assert(s.drop_first() =~= b);
        assert(runs(a) + runs(b) =~= runs(b));
    } else if is_white_space(a[0]) {
        assert(s[0] == a[0]);
        assert(s.drop_first() =~= a.drop_first() + seq![c] + b);
        law_white_space_parts_runs(a.drop_first(), c, b);
    } else {
        let n = run_len(a.drop_first(), p);
        let t = s.drop_first();
        lemma_run_len_bound(a.drop_first(), p);
        lemma_run_satisfies(a.drop_first(), p);
        lemma_run_stops(a.drop_first(), p);
        assert forall|i: int| 0 <= i < n implies p(#[trigger] t[i]) by {
            assert(t[i] == a.drop_first()[i]);
        }
        assert(!p(t[n as int])) by {
            if n < a.drop_first().len() {
                assert(t[n as int] == a.drop_first()[n as int]);
            } else {
                assert(t[n as int] == c);
            }
        }
        lemma_run_len(t, p, n);
        assert(s[0] == a[0]);
        assert(s.take(n as int + 1) =~= a.take(n as int + 1));
        assert(s.skip(n as int + 1) =~= a.skip(n as int + 1) + seq![c] + b);
        law_white_space_parts_runs(a.skip(n as int + 1), c, b);
        assert(runs(s) =~= runs(a) + runs(b));
    }
}

/// A text without white space is one run, marks and all; no text is none.
pub proof fn law_a_black_text_is_one_run(s: Seq<char>)
    requires
        is_black(s),
    ensures
        runs(s) == if s.len() > 0 {
            seq![s]
        } else {
            Seq::empty()
        },
{
    if s.len() > 0 {
        let t = s.drop_first();
        let p = |c: char| !is_white_space(c);
        assert forall|i: int| 0 <= i < t.len() implies p(#[trigger] t[i]) by {
            assert(t[i] == s[i + 1]);
        }
        lemma_run_len(t, p, t.len());
        assert(s.take(s.len() as int) =~= s);
        assert(runs(s.skip(s.len() as int)) =~= Seq::empty());
        assert(runs(s) =~= seq![s]);
    } else {
        assert(runs(s) =~= Seq::empty());
    }
}

/// Trimming drops the white space around a text, and nothing of the text itself.
pub proof fn law_trimming_drops_outer_white_space(a: Seq<char>, core: Seq<char>, b: Seq<char>)
    requires
        is_blank(a),
        is_blank(b),
        core.len() > 0 ==> !is_white_space(core[0]) && !is_white_space(core.last()),
        core.len() == 0 ==> b.len() == 0,
    ensures
        trimmed(a + core + b) == core,
{
    let s = a + core + b;
    let p = |c: char| is_white_space(c);
    assert forall|i: int| 0 <= i < a.len() implies p(#[trigger] s[i]) by {
        assert(s[i] == a[i]);
    }
    if core.len() > 0 {
        assert(s[a.len() as int] == core[0]);
    }
    lemma_run_len(s, p, a.len());
    assert(s.skip(a.len() as int) =~= core + b);
    lemma_trim_end(core, b);
}

proof fn lemma_trim_end(core: Seq<char>, b: Seq<char>)
    requires
        is_blank(b),
        core.len() > 0 ==> !is_white_space(core.last()),
    ensures
        trim_end(core + b) == core,
    decreases b.len(),
{
    if b.len() == 0 {
        assert(core + b =~= core);
    } else {
        let less = b.drop_last();
        assert forall|i: int| 0 <= i < less.len() implies is_white_space(#[trigger] less[i]) by {
            assert(less[i] == b[i]);
        }
        assert((core + b).last() == b.last());
        assert((core + b).drop_last() =~= core + less);
        lemma_trim_end(core, less);
    }
}

/// A text without an equals sign is no variable.
pub proof fn law_no_variable_without_an_equals_sign(s: Seq<char>)
    requires
        !s.contains('='),
    ensures
        key_value(s) is None,
{
    assert forall|i: int| 0 <= i < s.len() implies #[trigger] s[i] != '=' by {
        assert(s.contains(s[i]));
    }
    lemma_run_len(s, |c: char| c != '=', s.len());
}

/// The number that decimal digits write.
pub open spec fn number(s: Seq<char>) -> int
    decreases s.len(),
{
    if s.len() == 0 {
        0
    } else {
        10 * number(s.drop_last()) + (s.last() as int - '0' as int)
    }
}

/// The digits of a number write that number. They are the digits 0 to 9, and the first is
/// not 0, but for the number 0 itself.
pub proof fn law_digits_write_their_number(n: nat)
    ensures
        number(digits(n)) == n,
        digits(n).len() > 0,
        forall|i: int| 0 <= i < digits(n).len() ==> '0' <= #[trigger] digits(n)[i] <= '9',
        n > 0 ==> digits(n)[0] != '0',
        n == 0 ==> digits(n).len() == 1,
    decreases n,
{
    reveal_with_fuel(number, 2);
    if n >= 10 {
        law_digits_write_their_number(n / 10);
        assert(digits(n).drop_last() =~= digits(n / 10));
    } else {
        assert(digits(n).drop_last() =~= Seq::empty());
    }
}

/// A number is written by the digits of its size, with a minus sign before them if it is
/// negative.
pub proof fn law_decimals_have_a_sign(n: nat)
    ensures
        decimal(n as int) == digits(n),
        n > 0 ==> decimal(-(n as int)) == seq!['-'] + digits(n),
{
}

/// A path that is not absolute is read from its directory, with one slash between them;
/// one that is absolute stays as it is.
pub proof fn law_paths_are_read_from_their_directory(base: Seq<char>, path: Seq<char>)
    ensures
        joined(base, seq!['/'] + path) == seq!['/'] + path,
        joined(Seq::empty(), path) == path,
        !is_absolute(path) && base.len() > 0 && base.last() != '/' ==> joined(base, path) == base
            + seq!['/'] + path,
        !is_absolute(path) ==> joined(base + seq!['/'], path) == base + seq!['/'] + path,
{
    if base.len() > 0 && base.last() != '/' {
        assert(base.push('/') + path =~= base + seq!['/'] + path);
    }
}

/// A file that is named alone lies in the current directory, and one that is named behind a
/// single slash in the root directory.
pub proof fn law_top_files(name: Seq<char>)
    requires
        !name.contains('/'),
    ensures
        directory(name) == Seq::<char>::empty(),
        directory(seq!['/'] + name) == seq!['/'],
    decreases name.len(),
{
    if name.len() > 0 {
        let less = name.drop_last();
        assert(name.contains(name.last()));
        assert forall|i: int| 0 <= i < less.len() implies #[trigger] less[i] != '/' by {
            assert(name.contains(name[i]));
        }
        law_top_files(less);
        assert((seq!['/'] + name).drop_last() =~= seq!['/'] + less);
    } else {
        assert(seq!['/'] + name =~= seq!['/']);
        assert(name =~= Seq::empty());
    }
}

/// A list of strings is seen string by string.
pub proof fn law_lists_are_seen_text_by_text(list: Seq<String>)
    ensures
        texts(list).len() == list.len(),
        forall|i: int| 0 <= i < list.len() ==> #[trigger] texts(list)[i] == list[i]@,
{
}

} // verus!
