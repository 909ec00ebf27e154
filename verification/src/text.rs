use vstd::prelude::*;
use vstd::string::StringExecFns;

verus! {

/// White space as Unicode defines it, which is what `char::is_whitespace`
/// tests.
pub open spec fn is_space(c: char) -> bool {
    let u = c as u32;
    ||| 0x9 <= u <= 0xD
    ||| u == 0x20
    ||| u == 0x85
    ||| u == 0xA0
    ||| u == 0x1680
    ||| 0x2000 <= u <= 0x200A
    ||| u == 0x2028
    ||| u == 0x2029
    ||| u == 0x202F
    ||| u == 0x205F
    ||| u == 0x3000
}

/// The first place at or after `i` that holds no white space, or the
/// length of the line.
pub open spec fn skip_space(s: Seq<char>, i: int) -> int
    decreases s.len() - i,
{
    if 0 <= i < s.len() && is_space(s[i]) {
        skip_space(s, i + 1)
    } else {
        i
    }
}

/// The first place at or after `i` that holds white space, or the length
/// of the line.
pub open spec fn skip_word(s: Seq<char>, i: int) -> int
    decreases s.len() - i,
{
    if 0 <= i < s.len() && !is_space(s[i]) {
        skip_word(s, i + 1)
    } else {
        i
    }
}

/// The words of a line from place `i` on: the longest runs of characters
/// that are not white space.
pub open spec fn words_from(s: Seq<char>, i: int) -> Seq<Seq<char>>
    decreases s.len() - i,
{
    let a = skip_space(s, i);
    let b = skip_word(s, a);
    if 0 <= i <= a < b <= s.len() {
        seq![s.subrange(a, b)] + words_from(s, b)
    } else {
        Seq::empty()
    }
}

/// The words of a line.
pub open spec fn words(s: Seq<char>) -> Seq<Seq<char>> {
    words_from(s, 0)
}

/// The views of a list of strings.
pub open spec fn views(list: Seq<String>) -> Seq<Seq<char>> {
    Seq::new(list.len(), |k: int| list[k]@)
}

/// `skip_space` stops within the line, at a character that is not white
/// space unless it stops at the end.
pub proof fn lemma_skip_space(s: Seq<char>, i: int)
    requires
        0 <= i <= s.len(),
    ensures
        i <= skip_space(s, i) <= s.len(),
        skip_space(s, i) < s.len() ==> !is_space(s[skip_space(s, i)]),
    decreases s.len() - i,
{
    if i < s.len() && is_space(s[i]) {
        lemma_skip_space(s, i + 1);
    }
}

/// `skip_word` stops within the line, and beyond `i` when `i` holds a
/// character that is not white space.
pub proof fn lemma_skip_word(s: Seq<char>, i: int)
    requires
        0 <= i <= s.len(),
    ensures
        i <= skip_word(s, i) <= s.len(),
        i < s.len() && !is_space(s[i]) ==> i < skip_word(s, i),
    decreases s.len() - i,
{
    if i < s.len() && !is_space(s[i]) {
        lemma_skip_word(s, i + 1);
    }
}

/// What `words_from` comes to within a line: the word that starts at the
/// first character that is not white space, and then the words after it.
pub proof fn lemma_words_from_unfold(s: Seq<char>, i: int)
    requires
        0 <= i <= s.len(),
    ensures
        words_from(s, i) == if skip_space(s, i) < s.len() {
            seq![s.subrange(skip_space(s, i), skip_word(s, skip_space(s, i)))] + words_from(
                s,
                skip_word(s, skip_space(s, i)),
            )
        } else {
            Seq::empty()
        },
{
    lemma_skip_space(s, i);
    lemma_skip_word(s, skip_space(s, i));
}

/// No word is empty, and no word holds white space.
pub proof fn lemma_words_are_words(s: Seq<char>, i: int)
    requires
        0 <= i <= s.len(),
    ensures
        forall|k: int|
            0 <= k < words_from(s, i).len() ==> (#[trigger] words_from(s, i)[k]).len() > 0,
        forall|k: int, j: int|
            0 <= k < words_from(s, i).len() && 0 <= j < words_from(s, i)[k].len() ==> !is_space(
                #[trigger] words_from(s, i)[k][j],
            ),
    decreases s.len() - i,
{
    let a = skip_space(s, i);
    let b = skip_word(s, a);
    lemma_skip_space(s, i);
    lemma_skip_word(s, a);
    if a < s.len() {
        lemma_words_are_words(s, b);
        lemma_word_has_no_space(s, a);
        let rest = words_from(s, b);
        assert forall|k: int| 0 <= k < words_from(s, i).len() implies (#[trigger] words_from(
            s,
            i,
        )[k]).len() > 0 by {
            if k > 0 {
                assert(words_from(s, i)[k] == rest[k - 1]);
            }
        }
        assert forall|k: int, j: int|
            0 <= k < words_from(s, i).len() && 0 <= j < words_from(s, i)[k].len() implies !is_space(
            #[trigger] words_from(s, i)[k][j],
        ) by {
            if k > 0 {
                assert(words_from(s, i)[k] == rest[k - 1]);
            }
        }
    }
}

/// Between `i` and where `skip_word` stops there is no white space.
pub proof fn lemma_word_has_no_space(s: Seq<char>, i: int)
    requires
        0 <= i <= s.len(),
    ensures
        forall|j: int| i <= j < skip_word(s, i) ==> !is_space(#[trigger] s[j]),
    decreases s.len() - i,
{
    if i < s.len() && !is_space(s[i]) {
        lemma_word_has_no_space(s, i + 1);
    }
}

pub fn is_whitespace(c: char) -> (r: bool)
    ensures
        r == is_space(c),
{
    let u = c as u32;
    (0x9 <= u && u <= 0xD) || u == 0x20 || u == 0x85 || u == 0xA0 || u == 0x1680 || (0x2000 <= u
        && u <= 0x200A) || u == 0x2028 || u == 0x2029 || u == 0x202F || u == 0x205F || u == 0x3000
}

/// Splits a line into its words.
pub fn split_whitespace(line: &str) -> (r: Vec<String>)
    ensures
        views(r@) == words(line@),
{
    let n = line.unicode_len();
    let mut out: Vec<String> = Vec::new();
    let mut i: usize = 0;
    proof {
        assert(views(out@) =~= Seq::<Seq<char>>::empty());
    }
    while i < n
        invariant
            i <= n,
            n == line@.len(),
            views(out@) + words_from(line@, i as int) == words(line@),
        decreases n - i,
    {
        let ghost from = i;
        while i < n && is_whitespace(line.get_char(i))
            invariant
                from <= i <= n,
                n == line@.len(),
                skip_space(line@, from as int) == skip_space(line@, i as int),
            decreases n - i,
        {
            i = i + 1;
        }
        if i < n {
            let start = i;
            while i < n && !is_whitespace(line.get_char(i))
                invariant
                    start <= i <= n,
                    n == line@.len(),
                    skip_word(line@, start as int) == skip_word(line@, i as int),
                decreases n - i,
            {
                i = i + 1;
            }
            proof {
                lemma_skip_word(line@, start as int);
            }
            let word = String::from_str(line.substring_char(start, i));
            let ghost before = out@;
            out.push(word);
            proof {
                let rest = words_from(line@, i as int);
                let word = line@.subrange(start as int, i as int);
                assert(words_from(line@, from as int) == seq![word] + rest);
                assert(views(out@) =~= views(before) + seq![word]);
                assert(views(out@) + rest =~= views(before) + (seq![word] + rest));
            }
        } else {
            proof {
                assert(words_from(line@, from as int) =~= words_from(line@, i as int));
            }
        }
    }
    proof {
        assert(words_from(line@, i as int) =~= Seq::<Seq<char>>::empty());
        assert(views(out@) + Seq::<Seq<char>>::empty() =~= views(out@));
    }
    out
}

} // verus!
