//! Paging: how a long list is cut into pages, and how a reader moves from
//! one page to the next.

use crate::decimal::modulo;
use vstd::prelude::*;

verus! {

/// Entries on a page of the leaderboard.
pub const LEADERBOARD_PAGE: usize = 10;

/// Entries on a page of the level roles.
pub const LEVEL_ROLES_PAGE: usize = 5;

/// The pages that `len` entries take at `per_page` entries each.
pub open spec fn spec_page_count(len: int, per_page: int) -> int {
    (len + per_page - 1) / per_page
}

/// The pages that `len` entries take at `per_page` entries each: the
/// quotient, rounded up.
pub fn page_count(len: usize, per_page: usize) -> (pages: usize)
    requires
        per_page > 0,
    ensures
        pages == spec_page_count(len as int, per_page as int),
        pages * per_page >= len,
        len > 0 ==> (pages - 1) * per_page < len,
        len == 0 <==> pages == 0,
{
    let full = len / per_page;
    let rest = len % per_page;
    proof {
        let q = len as int / per_page as int;
        let r = len as int % per_page as int;
        assert(len == per_page * q + r && 0 <= r < per_page && q >= 0) by (nonlinear_arith)
            requires
                q == len as int / per_page as int,
                r == len as int % per_page as int,
                per_page > 0,
                len >= 0,
        ;
        assert(q <= len && (r > 0 ==> q < len) && (len > 0 && r == 0 ==> q > 0)) by (nonlinear_arith)
            requires
                len == per_page * q + r,
                0 <= r < per_page,
                q >= 0,
        ;
        let p = if r == 0 {
            q
        } else {
            q + 1
        };
        assert((len + per_page - 1) / (per_page as int) == p) by (nonlinear_arith)
            requires
                len == per_page * q + r,
                0 <= r < per_page,
                per_page > 0,
                p == (if r == 0 {
                    q
                } else {
                    q + 1
                }),
        ;
        assert(p * per_page >= len && (len > 0 ==> (p - 1) * per_page < len)) by (nonlinear_arith)
            requires
                len == per_page * q + r,
                0 <= r < per_page,
                per_page > 0,
                p == (if r == 0 {
                    q
                } else {
                    q + 1
                }),
        ;
    }
    let pages = if rest == 0 {
        full
    } else {
        full + 1
    };
    pages
}

/// The page that a reader at `current` reaches by one step, forward or
/// back, among `total` pages: the step wraps around at either end.
pub open spec fn spec_turned_page(current: int, total: int, forward: bool) -> int {
    if forward {
        (total + current + 1) % total
    } else {
        (total + current - 1) % total
    }
}

/// The page that a reader at `current` reaches by one step, forward or
/// back, among `total` pages.
pub fn turned_page(current: usize, total: usize, forward: bool) -> (page: usize)
    requires
        total > 0,
        total + current + 1 <= usize::MAX,
    ensures
        page == spec_turned_page(current as int, total as int, forward),
        page < total,
{
    if forward {
        modulo(total + current + 1, total)
    } else {
        modulo(total + current - 1, total)
    }
}

/// Where the page `index` begins and ends in a list of `len` entries at
/// `per_page` entries each: what is left after `index` full pages, and at
/// most one page of that.
pub fn page_bounds(index: usize, per_page: usize, len: usize) -> (bounds: (usize, usize))
    ensures
        bounds.0 == (if index * per_page <= len {
            index * per_page
        } else {
            len as int
        }),
        bounds.1 == (if bounds.0 + per_page <= len {
            bounds.0 + per_page
        } else {
            len as int
        }),
        bounds.0 <= bounds.1 <= len,
{
    let start = match index.checked_mul(per_page) {
        Some(start) => if start <= len {
            start
        } else {
            len
        },
        None => len,
    };
    let end = if len - start >= per_page {
        start + per_page
    } else {
        len
    };
    (start, end)
}

/// Why the footer of a page does not tell which page it is.
#[derive(Clone, Copy, Debug, PartialEq, Eq, Structural)]
pub enum FooterError {
    /// The footer has no second word.
    NoPageNumber,
    /// The second word is not a number that fits.
    NotANumber,
    /// The page number is zero, and pages are counted from one.
    PageZero,
}

/// Whether `c` is a decimal digit.
pub open spec fn is_digit(c: char) -> bool {
    '0' <= c <= '9'
}

/// The number that the decimal digits `digits` write.
pub open spec fn digits_value(digits: Seq<char>) -> int
    decreases digits.len(),
{
    if digits.len() == 0 {
        0
    } else {
        digits_value(digits.drop_last()) * 10 + (digits.last() as int - '0' as int)
    }
}

/// Where the first space of `text` at or after `from` stands, or the length
/// of `text` where there is none.
pub open spec fn next_space(text: Seq<char>, from: int) -> int
    decreases text.len() - from,
{
    if from >= text.len() {
        text.len() as int
    } else if text[from] == ' ' {
        from
    } else {
        next_space(text, from + 1)
    }
}

/// The second of the words that single spaces part `text` into, if there
/// are two.
pub open spec fn second_word(text: Seq<char>) -> Option<Seq<char>> {
    let first_end = next_space(text, 0);
    if first_end >= text.len() {
        None
    } else {
        Some(text.subrange(first_end + 1, next_space(text, first_end + 1)))
    }
}

/// Whether `text` is made of decimal digits alone.
pub open spec fn all_digits(text: Seq<char>) -> bool {
    forall|i: int| 0 <= i < text.len() ==> is_digit(#[trigger] text[i])
}

/// `word` without the plus sign that it may begin with.
pub open spec fn unsigned_part(word: Seq<char>) -> Seq<char> {
    if word.len() > 0 && word[0] == '+' {
        word.drop_first()
    } else {
        word
    }
}

/// The number that `word` writes: decimal digits, at least one, after an
/// optional plus sign, of a value that a `usize` holds.
pub open spec fn word_value(word: Seq<char>) -> Option<usize> {
    let digits = unsigned_part(word);
    if digits.len() > 0 && all_digits(digits) && digits_value(digits) <= usize::MAX {
        Some(digits_value(digits) as usize)
    } else {
        None
    }
}

/// The page, counted from zero, that a footer of the form `Page 3 of 7`
/// tells: one less than the number that its second word writes.
pub open spec fn spec_page_index(footer: Seq<char>) -> Result<usize, FooterError> {
    match second_word(footer) {
        None => Err(FooterError::NoPageNumber),
        Some(word) => match word_value(word) {
            None => Err(FooterError::NotANumber),
            Some(number) => if number == 0 {
                Err(FooterError::PageZero)
            } else {
                Ok((number - 1) as usize)
            },
        },
    }
}

proof fn lemma_next_space(text: Seq<char>, from: int, space: int)
    requires
        0 <= from <= space <= text.len(),
        forall|i: int| from <= i < space ==> text[i] != ' ',
        space < text.len() ==> text[space] == ' ',
    ensures
        next_space(text, from) == space,
    decreases space - from,
{
    if from < space {
        lemma_next_space(text, from + 1, space);
    }
}

proof fn lemma_digits_grow(digits: Seq<char>, longer: Seq<char>)
    requires
        digits.len() <= longer.len(),
        forall|i: int| 0 <= i < digits.len() ==> digits[i] == longer[i],
        forall|i: int| 0 <= i < longer.len() ==> is_digit(#[trigger] longer[i]),
    ensures
        0 <= digits_value(digits) <= digits_value(longer),
    decreases longer.len(),
{
    if digits.len() == 0 {
        if longer.len() > 0 {
            lemma_digits_grow(digits, longer.drop_last());
        }
    } else if digits.len() < longer.len() {
        lemma_digits_grow(digits, longer.drop_last());
    } else {
        assert(digits =~= longer);
        lemma_digits_grow(digits.drop_last(), longer.drop_last());
    }
}

/// The page, counted from zero, that a footer of the form `Page 3 of 7`
/// tells.
pub fn page_index(footer: &str) -> (index: Result<usize, FooterError>)
    ensures
        index == spec_page_index(footer@),
{
    let len = footer.unicode_len();
    let mut first_end: usize = 0;
    while first_end < len && footer.get_char(first_end) != ' '
        invariant
            first_end <= len,
            len == footer@.len(),
            forall|i: int| 0 <= i < first_end ==> footer@[i] != ' ',
        decreases len - first_end,
    {
        first_end += 1;
    }
    proof {
        lemma_next_space(footer@, 0, first_end as int);
    }
    if first_end >= len {
        return Err(FooterError::NoPageNumber);
    }
    let start = first_end + 1;
    let mut end: usize = start;
    while end < len && footer.get_char(end) != ' '
        invariant
            start <= end <= len,
            len == footer@.len(),
            forall|i: int| start <= i < end ==> footer@[i] != ' ',
        decreases len - end,
    {
        end += 1;
    }
    proof {
        lemma_next_space(footer@, start as int, end as int);
    }
    let ghost word = footer@.subrange(start as int, end as int);
    assert(second_word(footer@) == Some(word));
    let digits_start = if start < end && footer.get_char(start) == '+' {
        start + 1
    } else {
        start
    };
    let ghost digits = footer@.subrange(digits_start as int, end as int);
    proof {
        if digits_start > start {
            assert(word[0] == '+');
            assert(word.drop_first() =~= digits);
        } else {
            assert(word =~= digits);
            if word.len() > 0 {
                assert(word[0] == footer@[start as int]);
            }
        }
    }
    if digits_start >= end {
        assert(digits.len() == 0);
        return Err(FooterError::NotANumber);
    }
    let mut number: usize = 0;
    let mut i: usize = digits_start;
    while i < end
        invariant
            digits_start <= i <= end <= len,
            len == footer@.len(),
            digits == footer@.subrange(digits_start as int, end as int),
            second_word(footer@) == Some(word),
            digits == unsigned_part(word),
            forall|j: int| 0 <= j < i - digits_start ==> is_digit(#[trigger] digits[j]),
            number == digits_value(digits.take(i - digits_start)),
        decreases end - i,
    {
        let c = footer.get_char(i);
        assert(c == digits[i - digits_start]);
        if !(c >= '0' && c <= '9') {
            assert(!is_digit(digits[i - digits_start]));
            return Err(FooterError::NotANumber);
        }
        let digit: usize = (c as u32 - '0' as u32) as usize;
        proof {
            assert(digits.take(i - digits_start + 1).drop_last() == digits.take(i - digits_start));
            assert(digits.take(i - digits_start + 1).last() == c);
        }
        let grown = match number.checked_mul(10) {
            Some(tenfold) => tenfold.checked_add(digit),
            None => None,
        };
        match grown {
            Some(grown) => {
                number = grown;
            },
            None => {
                proof {
                    let prefix = digits.take(i - digits_start + 1);
                    assert(digits_value(prefix) > usize::MAX);
                    if all_digits(digits) {
                        lemma_digits_grow(prefix, digits);
                    }
                }
                return Err(FooterError::NotANumber);
            },
        }
        i += 1;
    }
    assert(digits.take(end - digits_start) == digits);
    if number == 0 {
        Err(FooterError::PageZero)
    } else {
        Ok(number - 1)
    }
}

/// A page of a list: which page it is, of how many, and which entries of
/// the list it shows. The entry at place `k` of the list has the rank
/// `k + 1`.
#[derive(Clone, Copy, Debug, PartialEq, Eq, Structural)]
pub struct Page {
    /// The page, counted from zero.
    pub index: usize,
    /// The pages that the list takes.
    pub total_pages: usize,
    /// The place of the first entry that the page shows.
    pub start: usize,
    /// The place after the last entry that the page shows.
    pub end: usize,
}

/// Why a page could not be turned.
#[derive(Clone, Copy, Debug, PartialEq, Eq, Structural)]
pub enum TurnError {
    /// The footer does not tell which page is shown.
    Footer(FooterError),
    /// The list has no entries, so there is no page to turn to.
    NoPages,
    /// The page that the footer tells is too far off to step from: back
    /// from before the first, or forward beyond what can be counted.
    OutOfReach,
}

/// The page `index` of a list of `len` entries at `per_page` entries each.
pub open spec fn spec_page(index: int, len: int, per_page: int) -> Page {
    let start = if index * per_page <= len {
        index * per_page
    } else {
        len
    };
    let end = if start + per_page <= len {
        start + per_page
    } else {
        len
    };
    Page {
        index: index as usize,
        total_pages: spec_page_count(len, per_page) as usize,
        start: start as usize,
        end: end as usize,
    }
}

/// The page that a reader reaches by one step, forward or back, from the
/// page that `footer` tells, in a list of `len` entries at `per_page`
/// entries each.
pub open spec fn spec_turn_page(footer: Seq<char>, forward: bool, len: int, per_page: int) -> Result<
    Page,
    TurnError,
> {
    let total = spec_page_count(len, per_page);
    match spec_page_index(footer) {
        Err(error) => Err(TurnError::Footer(error)),
        Ok(current) => if total == 0 {
            Err(TurnError::NoPages)
        } else if total + current + 1 > usize::MAX {
            Err(TurnError::OutOfReach)
        } else {
            Ok(spec_page(spec_turned_page(current as int, total, forward), len, per_page))
        },
    }
}

/// The page that a reader reaches by one step back from the page that
/// `footer` tells, where the step is taken from the page's own number
/// alone: there is no step back from the first page.
pub open spec fn spec_turn_back(footer: Seq<char>, len: int, per_page: int) -> Result<Page, TurnError> {
    let total = spec_page_count(len, per_page);
    match spec_page_index(footer) {
        Err(error) => Err(TurnError::Footer(error)),
        Ok(current) => if total == 0 {
            Err(TurnError::NoPages)
        } else if current == 0 {
            Err(TurnError::OutOfReach)
        } else {
            Ok(spec_page((current - 1) % total, len, per_page))
        },
    }
}

/// The page `index` of a list of `len` entries at `per_page` entries each.
pub fn page(index: usize, len: usize, per_page: usize) -> (page: Page)
    requires
        per_page > 0,
    ensures
        page == spec_page(index as int, len as int, per_page as int),
        page.start <= page.end <= len,
{
    let bounds = page_bounds(index, per_page, len);
    Page { index, total_pages: page_count(len, per_page), start: bounds.0, end: bounds.1 }
}

/// The page that a reader reaches by one step, forward or back, from the
/// page that `footer` tells, in a list of `len` entries at `per_page`
/// entries each. The step wraps around at either end of the list.
pub fn turn_page(footer: &str, forward: bool, len: usize, per_page: usize) -> (turned: Result<Page, TurnError>)
    requires
        per_page > 0,
    ensures
        turned == spec_turn_page(footer@, forward, len as int, per_page as int),
        turned matches Ok(p) ==> p.index < p.total_pages && p.start <= p.end <= len,
{
    let current = match page_index(footer) {
        Ok(current) => current,
        Err(error) => {
            return Err(TurnError::Footer(error));
        },
    };
    let total = page_count(len, per_page);
    if total == 0 {
        return Err(TurnError::NoPages);
    }
    if current >= usize::MAX - total {
        return Err(TurnError::OutOfReach);
    }
    Ok(page(turned_page(current, total, forward), len, per_page))
}

/// The page that a reader reaches by one step back from the page that
/// `footer` tells, where the step is taken from the page's own number
/// alone.
pub fn turn_back(footer: &str, len: usize, per_page: usize) -> (turned: Result<Page, TurnError>)
    requires
        per_page > 0,
    ensures
        turned == spec_turn_back(footer@, len as int, per_page as int),
        turned matches Ok(p) ==> p.index < p.total_pages && p.start <= p.end <= len,
{
    let current = match page_index(footer) {
        Ok(current) => current,
        Err(error) => {
            return Err(TurnError::Footer(error));
        },
    };
    let total = page_count(len, per_page);
    if total == 0 {
        return Err(TurnError::NoPages);
    }
    if current == 0 {
        return Err(TurnError::OutOfReach);
    }
    Ok(page(modulo(current - 1, total), len, per_page))
}

} // verus!
