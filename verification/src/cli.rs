use vstd::prelude::*;
use crate::crawler::{spec_source_for_url, url_host, Source, URL};
use crate::text::{lemma_split_concat, lemma_split_without_sep, split_on};
use crate::wuxiaworldco::BASE_URL;
use crate::text::chars_of;

verus! {

/// How many chapters are downloaded at once when the user does not say.
pub const DEFAULT_THREADS: usize = 5;

/// Printed when both a query and a url are given.
pub const BOTH_GIVEN: &'static str = "Please use either --url or --query not both";

/// Printed when neither a query nor a url is given.
pub const NONE_GIVEN: &'static str = "Please use lndown --help to view usage";

/// An ASCII decimal digit.
pub open spec fn is_digit(c: char) -> bool {
    '0' <= c <= '9'
}

/// The value of a string of decimal digits.
pub open spec fn digits_value(d: Seq<char>) -> int
    decreases d.len(),
{
    if d.len() == 0 {
        0
    } else {
        digits_value(d.drop_last()) * 10 + (d.last() as int - '0' as int)
    }
}

/// The digits of an unsigned number: the text without one leading `+`.
pub open spec fn unsigned_digits(s: Seq<char>) -> Seq<char> {
    if s.len() > 0 && s[0] == '+' {
        s.skip(1)
    } else {
        s
    }
}

/// What `str::parse::<usize>` gives: an optional `+`, then at least one decimal digit
/// and nothing else, of a value that fits.
pub open spec fn parsed_usize(s: Seq<char>) -> Option<usize> {
    let d = unsigned_digits(s);
    if d.len() > 0 && (forall|i: int| 0 <= i < d.len() ==> is_digit(#[trigger] d[i]))
        && digits_value(d) <= usize::MAX {
        Some(digits_value(d) as usize)
    } else {
        None
    }
}

proof fn lemma_digits_value_nonneg(d: Seq<char>)
    requires
        forall|i: int| 0 <= i < d.len() ==> is_digit(#[trigger] d[i]),
    ensures
        digits_value(d) >= 0,
    decreases d.len(),
{
    if d.len() > 0 {
        lemma_digits_value_nonneg(d.drop_last());
    }
}

/// Parses a decimal number as `str::parse::<usize>` does.
pub fn parse_usize(s: &str) -> (r: Option<usize>)
    ensures
        r == parsed_usize(s@),
{
    let cs = chars_of(s);
    let n = cs.len();
    let start: usize = if n > 0 && cs[0] == '+' {
        1
    } else {
        0
    };
    let ghost d = unsigned_digits(s@);
    assert(d =~= s@.skip(start as int));
    if start >= n {
        return None;
    }
    let mut value: usize = 0;
    let mut overflow = false;
    let mut i: usize = start;
    assert(d.take(0) =~= Seq::<char>::empty());
    while i < n
        invariant
            cs@ == s@,
            n == s@.len(),
            start <= i <= n,
            d == s@.skip(start as int),
            d == unsigned_digits(s@),
            forall|k: int| 0 <= k < i - start ==> is_digit(#[trigger] d[k]),
            !overflow ==> value == digits_value(d.take(i - start)),
            overflow ==> digits_value(d.take(i - start)) > usize::MAX,
        decreases n - i,
    {
        let c = cs[i];
        assert(d[i - start] == c);
        if !('0' <= c && c <= '9') {
            assert(!is_digit(d[i - start]));
            assert(!(forall|k: int| 0 <= k < d.len() ==> is_digit(#[trigger] d[k])));
            return None;
        }
        let digit = (c as u32 - '0' as u32) as usize;
        assert(d.take(i + 1 - start).drop_last() =~= d.take(i - start));
        assert(d.take(i + 1 - start).last() == c);
        proof {
            lemma_digits_value_nonneg(d.take(i - start));
        }
        if !overflow {
            match value.checked_mul(10) {
                Some(tens) => match tens.checked_add(digit) {
                    Some(v) => {
                        value = v;
                    },
                    None => {
                        overflow = true;
                    },
                },
                None => {
                    overflow = true;
                },
            }
        }
        i = i + 1;
    }
    assert(d.take(n - start) =~= d);
    if overflow {
        None
    } else {
        Some(value)
    }
}

/// How many chapters are downloaded at once: the given count, or the default when none
/// is given; `None` when the given text is not a number.
pub fn thread_count(arg: Option<&str>) -> (r: Option<usize>)
    ensures
        arg is None ==> r == Some(DEFAULT_THREADS),
        arg matches Some(s) ==> r == parsed_usize(s@),
{
    match arg {
        Some(s) => parse_usize(s),
        None => Some(DEFAULT_THREADS),
    }
}

/// What to tell the user about the options given, if anything.
pub fn usage_notice(query_given: bool, url_given: bool) -> (r: Option<&'static str>)
    ensures
        r == (if query_given && url_given {
            Some(BOTH_GIVEN)
        } else if !query_given && !url_given {
            Some(NONE_GIVEN)
        } else {
            None::<&'static str>
        }),
{
    if query_given && url_given {
        Some(BOTH_GIVEN)
    } else if !query_given && !url_given {
        Some(NONE_GIVEN)
    } else {
        None
    }
}

/// The url of a novel that the search found: the site's url followed by its path.
pub fn novel_url(path: &str) -> (r: String)
    ensures
        r@ == URL@ + path@,
{
    let mut r = URL.to_string();
    r.append(path);
    r
}

/// A novel that the search found is on a site the crawler knows: the url made of the
/// site's url and the path of a search result (empty or starting with `/`) has the
/// site's host as its host.
pub proof fn lemma_found_novel_has_source(path: Seq<char>)
    requires
        path.len() == 0 || path[0] == '/',
    ensures
        url_host(URL@ + path) == Some(BASE_URL@),
        spec_source_for_url(URL@ + path) == Some(Source::Wuxiaworldco),
{
    reveal_strlit("https://www.wuxiaworld.co");
    reveal_strlit("www.wuxiaworld.co");
    reveal_strlit("https:");
    let scheme = "https:"@;
    let host = BASE_URL@;
    let empty = Seq::<char>::empty();
    assert(URL@ =~= scheme + seq!['/'] + (empty + seq!['/'] + host));
    lemma_split_without_sep(scheme, '/');
    lemma_split_without_sep(empty, '/');
    lemma_split_without_sep(host, '/');
    lemma_split_concat(empty, host, '/');
    lemma_split_concat(scheme, empty + seq!['/'] + host, '/');
    let base_pieces = seq![scheme, empty, host];
    assert(split_on(URL@, '/') =~= base_pieces);
    if path.len() == 0 {
        assert(URL@ + path =~= URL@);
    } else {
        let rest = path.skip(1);
        assert(URL@ + path =~= URL@ + seq!['/'] + rest);
        lemma_split_concat(URL@, rest, '/');
        assert(split_on(URL@ + path, '/')[2] == host);
    }
}

} // verus!
