//! The name converter: protocol identifiers in mixed case are split into
//! words and joined with underscores, in lower case.  The splitting follows
//! the pattern `[A-Z0-9][a-z]+ | [A-Z0-9]+` (an upper-or-digit run does not
//! swallow a trailing capital that begins a new capitalized word) `| [a-z]+`;
//! all other characters are skipped.

use vstd::prelude::*;

verus! {

use vstd::string::StrSliceExecFns;
use vstd::string::StringExecFns;
use crate::strutil::char_is_digit;
use crate::strutil::char_is_lower;
use crate::strutil::char_is_upper;
use crate::strutil::is_digit;
use crate::strutil::is_lower;
use crate::strutil::is_upper;
use crate::strutil::lower_char;
use crate::strutil::lower_chars;
use crate::strutil::push_char;
use crate::strutil::str_eq;
use crate::strutil::to_lower_char;

/// A character that starts or continues an acronym run: upper case or digit.
pub open spec fn is_ud(c: char) -> bool {
    is_upper(c) || is_digit(c)
}

pub fn char_is_ud(c: char) -> (r: bool)
    ensures
        r == is_ud(c),
{
    char_is_upper(c) || char_is_digit(c)
}

/// First position at or after `i` that does not hold a lower-case letter.
pub open spec fn low_run_end(s: Seq<char>, i: int) -> int
    decreases s.len() - i,
{
    if i >= s.len() || !is_lower(s[i]) {
        i
    } else {
        low_run_end(s, i + 1)
    }
}

/// First position at or after `i` where an acronym run stops: a character
/// that is not upper-or-digit, or one that begins a capitalized word
/// (it is followed by a lower-case letter).
pub open spec fn ud_run_end(s: Seq<char>, i: int) -> int
    decreases s.len() - i,
{
    if i >= s.len() || !is_ud(s[i]) || (i + 1 < s.len() && is_lower(s[i + 1])) {
        i
    } else {
        ud_run_end(s, i + 1)
    }
}

pub proof fn lemma_low_run_end(s: Seq<char>, i: int)
    requires
        0 <= i <= s.len(),
    ensures
        i <= low_run_end(s, i) <= s.len(),
        forall|k: int| i <= k < low_run_end(s, i) ==> is_lower(s[k]),
        low_run_end(s, i) < s.len() ==> !is_lower(s[low_run_end(s, i)]),
    decreases s.len() - i,
{
    if i < s.len() && is_lower(s[i]) {
        lemma_low_run_end(s, i + 1);
    }
}

pub proof fn lemma_ud_run_end(s: Seq<char>, i: int)
    requires
        0 <= i <= s.len(),
    ensures
        i <= ud_run_end(s, i) <= s.len(),
        forall|k: int| i <= k < ud_run_end(s, i) ==> is_ud(s[k]),
    decreases s.len() - i,
{
    if !(i >= s.len() || !is_ud(s[i]) || (i + 1 < s.len() && is_lower(s[i + 1]))) {
        lemma_ud_run_end(s, i + 1);
    }
}

/// The separator put before a word: nothing before the first word, an
/// underscore before every later one.
pub open spec fn sep(first: bool) -> Seq<char> {
    if first {
        Seq::empty()
    } else {
        seq!['_']
    }
}

/// The words of `s` from position `i` on, lower-cased and joined with
/// underscores; `first` says whether a word has already been emitted.
pub open spec fn split_words(s: Seq<char>, i: int, first: bool) -> Seq<char>
    decreases s.len() - i,
    via split_words_dec
{
    if i < 0 || i >= s.len() {
        Seq::empty()
    } else if is_ud(s[i]) {
        if i + 1 < s.len() && is_lower(s[i + 1]) {
            let j = low_run_end(s, i + 1);
            sep(first) + lower_chars(s.subrange(i, j)) + split_words(s, j, false)
        } else {
            let j = ud_run_end(s, i + 1);
            sep(first) + lower_chars(s.subrange(i, j)) + split_words(s, j, false)
        }
    } else if is_lower(s[i]) {
        let j = low_run_end(s, i + 1);
        sep(first) + s.subrange(i, j) + split_words(s, j, false)
    } else {
        split_words(s, i + 1, first)
    }
}

#[via_fn]
proof fn split_words_dec(s: Seq<char>, i: int, first: bool) {
    if 0 <= i && i < s.len() {
        lemma_low_run_end(s, i + 1);
        lemma_ud_run_end(s, i + 1);
    }
}

/// What `convert_name` returns: the word-split, lower-cased, joined form,
/// except for the one irregular identifier `DECnet`.
pub open spec fn convert_name_spec(s: Seq<char>) -> Seq<char> {
    if s == "DECnet"@ {
        "decnet"@
    } else {
        split_words(s, 0, true)
    }
}

/// What `convert_extension_name` returns: three multi-word extension
/// identifiers go through the general splitting algorithm, all others are
/// lower-cased directly.  Case mapping here is ASCII-only: protocol
/// identifiers are ASCII, and a character outside `A`-`Z` passes through
/// unchanged.
pub open spec fn convert_ext_spec(s: Seq<char>) -> Seq<char> {
    if s == "XPrint"@ || s == "XCMisc"@ || s == "BigRequests"@ {
        convert_name_spec(s)
    } else {
        lower_chars(s)
    }
}

/// What `sanitize` returns: a field name that collides with a reserved
/// keyword gets a trailing underscore.
pub open spec fn sanitize_spec(s: Seq<char>) -> Seq<char> {
    if s == "type"@ {
        "type_"@
    } else if s == "match"@ {
        "match_"@
    } else {
        s
    }
}

pub fn sanitize<'a>(name: &'a str) -> (r: &'a str)
    ensures
        r@ == sanitize_spec(name@),
{
    if str_eq(name, "type") {
        "type_"
    } else if str_eq(name, "match") {
        "match_"
    } else {
        name
    }
}

pub fn convert_name(name: &str) -> (out: String)
    ensures
        out@ == convert_name_spec(name@),
{
    if str_eq(name, "DECnet") {
        return String::from_str("decnet");
    }
    let ghost s = name@;
    let n: usize = name.unicode_len();
    let mut out = String::new();
    let mut first: bool = true;
    let mut i: usize = 0;
    while i < n
        invariant
            i <= n,
            n == s.len(),
            s == name@,
            s != "DECnet"@,
            convert_name_spec(s) == out@ + split_words(s, i as int, first),
        decreases n - i,
    {
        let ghost out0 = out@;
        let ghost first0 = first;
        let ghost w = i as int;
        let c = name.get_char(i);
        if char_is_ud(c) {
            if i + 1 < n && char_is_lower(name.get_char(i + 1)) {
                // [A-Z0-9][a-z]+ : one leading character, then a lower run
                let ghost j = low_run_end(s, w + 1);
                proof {
                    lemma_low_run_end(s, w + 1);
                }
                if !first {
                    push_char(&mut out, '_');
                }
                push_char(&mut out, to_lower_char(c));
                first = false;
                i = i + 1;
                proof {
                    assert(lower_chars(s.subrange(w, i as int)) =~= seq![lower_char(s[w])]);
                    assert(out@ =~= out0 + sep(first0) + lower_chars(s.subrange(w, i as int)));
                }
                while i < n && char_is_lower(name.get_char(i))
                    invariant
                        0 <= w,
                        w + 1 <= i <= n,
                        j <= n,
                        n == s.len(),
                        s == name@,
                        i <= j,
                        j == low_run_end(s, i as int),
                        out@ == out0 + sep(first0) + lower_chars(s.subrange(w, i as int)),
                    decreases n - i,
                {
                    push_char(&mut out, to_lower_char(name.get_char(i)));
                    proof {
                        assert(s.subrange(w, i + 1) =~= s.subrange(w, i as int) + seq![s[i as int]]);
                        assert(lower_chars(s.subrange(w, i + 1)) =~= lower_chars(
                            s.subrange(w, i as int),
                        ) + seq![lower_char(s[i as int])]);
                        assert(out@ =~= out0 + sep(first0) + lower_chars(s.subrange(w, i + 1)));
                        lemma_low_run_end(s, i as int + 1);
                    }
                    i = i + 1;
                }
                proof {
                    assert(i as int == j);
                    assert(split_words(s, w, first0) == sep(first0) + lower_chars(s.subrange(w, j))
                        + split_words(s, j, false));
                    assert(convert_name_spec(s) =~= out@ + split_words(s, i as int, false));
                }
            } else {
                // [A-Z0-9]+ not followed by a lower-case letter
                let ghost j = ud_run_end(s, w + 1);
                proof {
                    lemma_ud_run_end(s, w + 1);
                }
                if !first {
                    push_char(&mut out, '_');
                }
                push_char(&mut out, to_lower_char(c));
                first = false;
                i = i + 1;
                proof {
                    assert(lower_chars(s.subrange(w, i as int)) =~= seq![lower_char(s[w])]);
                    assert(out@ =~= out0 + sep(first0) + lower_chars(s.subrange(w, i as int)));
                }
                while i < n && char_is_ud(name.get_char(i)) && !(i + 1 < n && char_is_lower(
                    name.get_char(i + 1),
                ))
                    invariant
                        0 <= w,
                        w + 1 <= i <= n,
                        j <= n,
                        n == s.len(),
                        s == name@,
                        i <= j,
                        j == ud_run_end(s, i as int),
                        out@ == out0 + sep(first0) + lower_chars(s.subrange(w, i as int)),
                    decreases n - i,
                {
                    push_char(&mut out, to_lower_char(name.get_char(i)));
                    proof {
                        assert(s.subrange(w, i + 1) =~= s.subrange(w, i as int) + seq![s[i as int]]);
                        assert(lower_chars(s.subrange(w, i + 1)) =~= lower_chars(
                            s.subrange(w, i as int),
                        ) + seq![lower_char(s[i as int])]);
                        assert(out@ =~= out0 + sep(first0) + lower_chars(s.subrange(w, i + 1)));
                        lemma_ud_run_end(s, i as int + 1);
                    }
                    i = i + 1;
                }
                proof {
                    assert(i as int == j);
                    assert(split_words(s, w, first0) == sep(first0) + lower_chars(s.subrange(w, j))
                        + split_words(s, j, false));
                    assert(convert_name_spec(s) =~= out@ + split_words(s, i as int, false));
                }
            }
        } else if char_is_lower(c) {
            // [a-z]+
            let ghost j = low_run_end(s, w + 1);
            proof {
                lemma_low_run_end(s, w + 1);
            }
            if !first {
                push_char(&mut out, '_');
            }
            push_char(&mut out, c);
            first = false;
            i = i + 1;
            proof {
                assert(s.subrange(w, i as int) =~= seq![s[w]]);
                assert(out@ =~= out0 + sep(first0) + s.subrange(w, i as int));
            }
            while i < n && char_is_lower(name.get_char(i))
                invariant
                    0 <= w,
                    w + 1 <= i <= n,
                    j <= n,
                    n == s.len(),
                    s == name@,
                    i <= j,
                    j == low_run_end(s, i as int),
                    out@ == out0 + sep(first0) + s.subrange(w, i as int),
                decreases n - i,
            {
                push_char(&mut out, name.get_char(i));
                proof {
                    assert(s.subrange(w, i + 1) =~= s.subrange(w, i as int) + seq![s[i as int]]);
                    assert(out@ =~= out0 + sep(first0) + s.subrange(w, i + 1));
                    lemma_low_run_end(s, i as int + 1);
                }
                i = i + 1;
            }
            proof {
                assert(i as int == j);
                assert(split_words(s, w, first0) == sep(first0) + s.subrange(w, j) + split_words(
                    s,
                    j,
                    false,
                ));
                assert(convert_name_spec(s) =~= out@ + split_words(s, i as int, false));
            }
        } else {
            i = i + 1;
        }
    }
    out
}

/// A string already in the generated form: lower-case words joined by
/// single underscores, with no underscore at either end.
pub open spec fn is_snake(s: Seq<char>) -> bool {
    &&& forall|k: int| 0 <= k < s.len() ==> (is_lower(#[trigger] s[k]) || s[k] == '_')
    &&& (s.len() > 0 ==> s[0] != '_' && s[s.len() - 1] != '_')
    &&& forall|k: int| 0 <= k < s.len() - 1 ==> !(#[trigger] s[k] == '_' && s[k + 1] == '_')
}

pub open spec fn no_digits(s: Seq<char>) -> bool {
    forall|k: int| 0 <= k < s.len() ==> !is_digit(#[trigger] s[k])
}

proof fn lemma_split_snake_from(s: Seq<char>, i: int)
    requires
        is_snake(s),
        0 < i < s.len(),
        s[i - 1] == '_',
    ensures
        split_words(s, i, false) == s.subrange(i - 1, s.len() as int),
    decreases s.len() - i,
{
    assert(s[i] != '_');
    assert(is_lower(s[i]));
    assert(!is_ud(s[i]));
    let j = low_run_end(s, i + 1);
    lemma_low_run_end(s, i + 1);
    if j == s.len() {
        assert(sep(false) + s.subrange(i, j) + split_words(s, j, false) =~= s.subrange(
            i - 1,
            s.len() as int,
        ));
    } else {
        assert(!is_lower(s[j]));
        assert(s[j] == '_');
        assert(j < s.len() - 1);
        assert(s[j + 1] != '_');
        assert(is_lower(s[j + 1]));
        assert(split_words(s, j, false) == split_words(s, j + 1, false));
        lemma_split_snake_from(s, j + 1);
        assert(sep(false) + s.subrange(i, j) + s.subrange(j, s.len() as int) =~= s.subrange(
            i - 1,
            s.len() as int,
        ));
    }
}

/// The generated form is a fixed point: converting a string that is already
/// snake-cased and lower-case gives it back unchanged.
pub proof fn lemma_convert_snake_identity(s: Seq<char>)
    requires
        is_snake(s),
    ensures
        convert_name_spec(s) == s,
{
    reveal_strlit("DECnet");
    if s == "DECnet"@ {
        assert(is_lower('D') || 'D' == '_');
        assert(false);
    }
    if s.len() == 0 {
        assert(split_words(s, 0, true) =~= s);
    } else {
        assert(s[0] != '_');
        assert(is_lower(s[0]));
        assert(!is_ud(s[0]));
        let j = low_run_end(s, 1);
        lemma_low_run_end(s, 1);
        if j == s.len() {
            assert(sep(true) + s.subrange(0, j) + split_words(s, j, false) =~= s);
        } else {
            assert(s[j] == '_');
            assert(j < s.len() - 1);
            assert(is_lower(s[j + 1]));
            assert(split_words(s, j, false) == split_words(s, j + 1, false));
            lemma_split_snake_from(s, j + 1);
            assert(sep(true) + s.subrange(0, j) + s.subrange(j, s.len() as int) =~= s);
        }
    }
}

proof fn lemma_snake_compose(w: Seq<char>, r: Seq<char>)
    requires
        w.len() > 0,
        forall|k: int| 0 <= k < w.len() ==> is_lower(#[trigger] w[k]),
        r.len() == 0 || (r.len() >= 2 && r[0] == '_' && is_lower(r[1]) && is_snake(
            r.drop_first(),
        )),
    ensures
        is_snake(w + r),
        is_lower((w + r)[0]),
{
    let t = w + r;
    if r.len() == 0 {
        assert(t =~= w);
    } else {
        let rr = r.drop_first();
        assert(forall|k: int| 1 <= k < r.len() ==> r[k] == rr[k - 1]);
        assert forall|k: int| 0 <= k < t.len() implies (is_lower(#[trigger] t[k]) || t[k]
            == '_') by {
            if k < w.len() {
            } else if k == w.len() {
                assert(t[k] == r[0]);
            } else {
                assert(t[k] == rr[k - w.len() - 1]);
            }
        }
        assert(t[0] == w[0]);
        assert(t[t.len() - 1] == rr[rr.len() - 1]);
        assert forall|k: int| 0 <= k < t.len() - 1 implies !(#[trigger] t[k] == '_' && t[k + 1]
            == '_') by {
            if k + 1 < w.len() {
            } else if k + 1 == w.len() {
                assert(t[k] == w[k]);
            } else if k == w.len() {
                assert(t[k + 1] == r[1]);
            } else {
                assert(t[k] == rr[k - w.len() - 1]);
                assert(t[k + 1] == rr[k - w.len()]);
            }
        }
    }
}

proof fn lemma_split_words_snake(s: Seq<char>, i: int, first: bool)
    requires
        no_digits(s),
    ensures
        ({
            let t = split_words(s, i, first);
            if first {
                t.len() == 0 || (is_lower(t[0]) && is_snake(t))
            } else {
                t.len() == 0 || (t.len() >= 2 && t[0] == '_' && is_lower(t[1]) && is_snake(
                    t.drop_first(),
                ))
            }
        }),
    decreases s.len() - i,
{
    if i < 0 || i >= s.len() {
    } else if is_ud(s[i]) {
        assert(is_upper(s[i]));
        if i + 1 < s.len() && is_lower(s[i + 1]) {
            let j = low_run_end(s, i + 1);
            lemma_low_run_end(s, i + 1);
            lemma_split_words_snake(s, j, false);
            let w = lower_chars(s.subrange(i, j));
            assert forall|k: int| 0 <= k < w.len() implies is_lower(#[trigger] w[k]) by {
                assert(w[k] == lower_char(s[i + k]));
                if k == 0 {
                    assert(is_upper(s[i]));
                } else {
                    assert(is_lower(s[i + k]));
                }
            }
            lemma_snake_compose(w, split_words(s, j, false));
            assert(split_words(s, i, first) == sep(first) + w + split_words(s, j, false));
            if first {
                assert(sep(first) + w + split_words(s, j, false) =~= w + split_words(s, j, false));
            } else {
                let t = split_words(s, i, first);
                assert(t.drop_first() =~= w + split_words(s, j, false));
                assert(t[0] == '_');
                assert(t[1] == (w + split_words(s, j, false))[0]);
            }
        } else {
            let j = ud_run_end(s, i + 1);
            lemma_ud_run_end(s, i + 1);
            lemma_split_words_snake(s, j, false);
            let w = lower_chars(s.subrange(i, j));
            assert forall|k: int| 0 <= k < w.len() implies is_lower(#[trigger] w[k]) by {
                assert(w[k] == lower_char(s[i + k]));
                if k == 0 {
                    assert(is_upper(s[i]));
                } else {
                    assert(is_ud(s[i + k]));
                    assert(is_upper(s[i + k]));
                }
            }
            lemma_snake_compose(w, split_words(s, j, false));
            assert(split_words(s, i, first) == sep(first) + w + split_words(s, j, false));
            if first {
                assert(sep(first) + w + split_words(s, j, false) =~= w + split_words(s, j, false));
            } else {
                let t = split_words(s, i, first);
                assert(t.drop_first() =~= w + split_words(s, j, false));
                assert(t[0] == '_');
                assert(t[1] == (w + split_words(s, j, false))[0]);
            }
        }
    } else if is_lower(s[i]) {
        let j = low_run_end(s, i + 1);
        lemma_low_run_end(s, i + 1);
        lemma_split_words_snake(s, j, false);
        let w = s.subrange(i, j);
        assert forall|k: int| 0 <= k < w.len() implies is_lower(#[trigger] w[k]) by {
            if k > 0 {
                assert(is_lower(s[i + k]));
            }
        }
        lemma_snake_compose(w, split_words(s, j, false));
        assert(split_words(s, i, first) == sep(first) + w + split_words(s, j, false));
        if first {
            assert(sep(first) + w + split_words(s, j, false) =~= w + split_words(s, j, false));
        } else {
            let t = split_words(s, i, first);
            assert(t.drop_first() =~= w + split_words(s, j, false));
            assert(t[0] == '_');
            assert(t[1] == (w + split_words(s, j, false))[0]);
        }
    } else {
        lemma_split_words_snake(s, i + 1, first);
    }
}

/// Converting a digit-free identifier gives a snake-cased string (or an
/// empty one, when the input holds no letters at all).
pub proof fn lemma_convert_name_snake(s: Seq<char>)
    requires
        no_digits(s),
    ensures
        is_snake(convert_name_spec(s)),
{
    reveal_strlit("DECnet");
    reveal_strlit("decnet");
    if s == "DECnet"@ {
        let t = "decnet"@;
        assert(t.len() == 6);
        assert forall|k: int| 0 <= k < t.len() implies (is_lower(#[trigger] t[k]) || t[k]
            == '_') by {
            if k == 0 {
                assert(t[k] == 'd');
            } else if k == 1 {
                assert(t[k] == 'e');
            } else if k == 2 {
                assert(t[k] == 'c');
            } else if k == 3 {
                assert(t[k] == 'n');
            } else if k == 4 {
                assert(t[k] == 'e');
            } else {
                assert(t[k] == 't');
            }
        }
        assert(t[0] != '_' && t[5] != '_');
        assert(is_snake(t));
    } else {
        lemma_split_words_snake(s, 0, true);
        let t = split_words(s, 0, true);
        if t.len() == 0 {
            assert(is_snake(t));
        }
    }
}

/// Converting a name twice gives the same result as converting it once,
/// for every identifier free of decimal digits.  (A digit can break this:
/// an acronym run like the one in `XF86VidMode` converts to `xf86_vid_mode`,
/// whose word `xf86` re-splits into `xf` and `86`.)
pub proof fn lemma_convert_name_idempotent(s: Seq<char>)
    requires
        no_digits(s),
    ensures
        convert_name_spec(convert_name_spec(s)) == convert_name_spec(s),
{
    reveal_strlit("DECnet");
    reveal_strlit("decnet");
    lemma_convert_name_snake(s);
    let t = convert_name_spec(s);
    if t == "DECnet"@ {
        assert(t[0] == 'D');
        assert(is_lower('D') || 'D' == '_');
        assert(false);
    }
    lemma_convert_snake_identity(t);
}

pub fn convert_extension_name(name: &str) -> (r: String)
    ensures
        r@ == convert_ext_spec(name@),
{
    if str_eq(name, "XPrint") || str_eq(name, "XCMisc") || str_eq(name, "BigRequests") {
        convert_name(name)
    } else {
        crate::strutil::ascii_lower(name)
    }
}

} // verus!
