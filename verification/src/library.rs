//! Library (roll-list) logic: the date-aware search, the date-sort order, the
//! grid cells and arrow-key navigation, roll-card dates, and what is recorded
//! of a roll in its manifest.

use vstd::prelude::*;
use crate::dates;
use crate::edit_manifest::RollManifest;
use crate::film::{BaseMode, FilmPreset};
use crate::seqs;
use crate::text;

verus! {

/// A direction of an arrow key.
#[derive(Clone, Copy, Debug, PartialEq, Eq, Structural)]
pub enum MoveDir {
    Left,
    Right,
    Up,
    Down,
}

/// The state of a picture that is decoded in the background. A decoded picture
/// is known by a number.
#[derive(Clone, Copy, Debug, PartialEq, Eq, Structural)]
pub enum Thumb {
    Loading,
    Ready(u64),
    Failed,
}

/// A roll of the library.
#[derive(Debug)]
pub struct Roll {
    /// The roll's directory.
    pub dir: String,
    /// The display name: the manifest's label, or the directory leaf.
    pub name: String,
    /// The file name of the first frame.
    pub cover: Option<String>,
    pub frame_count: usize,
    pub preset: FilmPreset,
    pub base_mode: BaseMode,
    /// ISO `YYYY-MM-DD`.
    pub start_date: Option<String>,
    /// ISO `YYYY-MM-DD`.
    pub end_date: Option<String>,
    pub thumb: Thumb,
}

/// What is known of a roll, with its texts as sequences of characters.
#[verifier::ext_equal]
pub struct RollModel {
    pub dir: Seq<char>,
    pub name: Seq<char>,
    pub cover: Option<Seq<char>>,
    pub frame_count: usize,
    pub preset: FilmPreset,
    pub base_mode: BaseMode,
    pub start_date: Option<Seq<char>>,
    pub end_date: Option<Seq<char>>,
    pub thumb: Thumb,
}

impl Roll {
    /// The model of a roll.
    pub open spec fn model(self) -> RollModel {
        RollModel {
            dir: self.dir@,
            name: self.name@,
            cover: text::text_of(self.cover),
            frame_count: self.frame_count,
            preset: self.preset,
            base_mode: self.base_mode,
            start_date: text::text_of(self.start_date),
            end_date: text::text_of(self.end_date),
            thumb: self.thumb,
        }
    }
}

/// The models of a list of rolls.
pub open spec fn roll_models(rolls: Seq<Roll>) -> Seq<RollModel> {
    rolls.map_values(|r: Roll| r.model())
}

impl Clone for Roll {
    fn clone(&self) -> (r: Self)
        ensures
            r == *self,
    {
        Roll {
            dir: self.dir.clone(),
            name: self.name.clone(),
            cover: text::clone_option(&self.cover),
            frame_count: self.frame_count,
            preset: self.preset,
            base_mode: self.base_mode,
            start_date: text::clone_option(&self.start_date),
            end_date: text::clone_option(&self.end_date),
            thumb: self.thumb,
        }
    }
}

/// The manifest to write when a roll's film preset is chosen. The default
/// preset is implicit in the key's absence, so for it nothing is written.
pub fn record_roll_preset(manifest: RollManifest, preset: FilmPreset) -> (r: Option<RollManifest>)
    ensures
        r is Some <==> preset != FilmPreset::Positive,
        r is Some ==> r.unwrap() == (RollManifest { preset: r.unwrap().preset, ..manifest })
            && r.unwrap().film() == preset,
{
    if preset == FilmPreset::Positive {
        return None;
    }
    let mut next: RollManifest = manifest;
    next.set_preset(preset);
    Some(next)
}

/// The manifest to write when a roll's base strategy is chosen. The preset
/// base is implicit in the key's absence, so for it nothing is written.
pub fn record_roll_base_mode(manifest: RollManifest, mode: BaseMode) -> (r: Option<RollManifest>)
    ensures
        r is Some <==> mode != BaseMode::Preset,
        r is Some ==> r.unwrap() == (RollManifest { base_mode: r.unwrap().base_mode, ..manifest })
            && r.unwrap().strategy() == mode,
{
    if mode == BaseMode::Preset {
        return None;
    }
    let mut next: RollManifest = manifest;
    next.set_base_mode(mode);
    Some(next)
}

/// The manifest to write when a roll's dates are committed; a cleared date is
/// recorded as absent.
pub fn record_roll_dates(
    manifest: RollManifest,
    start: Option<String>,
    end: Option<String>,
) -> (r: RollManifest)
    ensures
        r == (RollManifest { start_date: start, end_date: end, ..manifest }),
{
    let mut next: RollManifest = manifest;
    next.set_dates(start, end);
    next
}

/// The manifest to write when a roll's label is committed; `None` clears it.
pub fn record_roll_name(manifest: RollManifest, name: Option<String>) -> (r: RollManifest)
    ensures
        r == (RollManifest { name, ..manifest }),
{
    let mut next: RollManifest = manifest;
    next.set_name(name);
    next
}

/// The notation of a roll's dates on its card: a single day, or a range that
/// repeats neither a shared month nor a shared year.
pub open spec fn card_dates(
    months: Seq<Seq<char>>,
    start: (u32, u32, u32),
    end: Option<(u32, u32, u32)>,
) -> Seq<char> {
    let (year, month, day) = start;
    let name = months[month - 1];
    let head = name + seq![' '] + text::decimal(day as nat);
    let single = head + seq![' '] + text::decimal(year as nat);
    match end {
        None => single,
        Some((end_year, end_month, end_day)) => {
            let end_name = months[end_month - 1];
            if (year, month, day) == (end_year, end_month, end_day) {
                single
            } else if year == end_year && month == end_month {
                head + " - "@ + text::decimal(end_day as nat) + seq![' '] + text::decimal(
                    year as nat,
                )
            } else if year == end_year {
                head + " - "@ + end_name + seq![' '] + text::decimal(end_day as nat) + seq![' ']
                    + text::decimal(year as nat)
            } else {
                single + " - "@ + end_name + seq![' '] + text::decimal(end_day as nat) + seq![' ']
                    + text::decimal(end_year as nat)
            }
        },
    }
}

/// The texts of the twelve month names.
pub open spec fn month_texts(months: Seq<&str>) -> Seq<Seq<char>> {
    months.map_values(|m: &str| m@)
}

/// The end date that a text gives, where there is one.
pub open spec fn end_of(end: Option<Seq<char>>) -> Option<(u32, u32, u32)> {
    match end {
        Some(e) => dates::iso_date(e),
        None => None,
    }
}

/// Appends a blank and a number.
fn push_number(out: &mut String, number: u32)
    ensures
        final(out)@ == old(out)@ + seq![' '] + text::decimal(number as nat),
{
    let ghost before = out@;
    out.push(' ');
    assert(out@ =~= before + seq![' ']);
    out.push_str(text::decimal_text(number as u64).as_str());
}

/// Formats a roll's start and end dates for the library card, de-duplicated:
/// `May 3 - 4 2026`, `May 30 - Jun 2 2026`, `Dec 30 2025 - Jan 2 2026`, or a
/// single `May 3 2026` when there is no end date or it equals the start.
/// `months` supplies the localized short month names; `None` for any malformed
/// date.
pub fn format_roll_card_dates(months: &[&str; 12], start: &str, end: Option<&str>) -> (r: Option<
    String,
>)
    ensures
        r is Some <==> dates::iso_date(start@) is Some && (end is Some ==> dates::iso_date(
            end.unwrap()@,
        ) is Some),
        r is Some ==> r.unwrap()@ == card_dates(
            month_texts(months@),
            dates::iso_date(start@).unwrap(),
            end_of(text::slice_of(end)),
        ),
{
    let (year, month, day): (u32, u32, u32) = match dates::parse_iso_date(start) {
        Some(date) => date,
        None => {
            return None;
        },
    };
    let (end_year, end_month, end_day): (u32, u32, u32) = match end {
        Some(e) => match dates::parse_iso_date(e) {
            Some(date) => date,
            None => {
                return None;
            },
        },
        None => (year, month, day),
    };
    let name: &str = months[(month - 1) as usize];
    let end_name: &str = months[(end_month - 1) as usize];
    assert(month_texts(months@)[month - 1] == name@);
    assert(month_texts(months@)[end_month - 1] == end_name@);
    let mut out: String = name.to_owned();
    push_number(&mut out, day);
    let same_day: bool = year == end_year && month == end_month && day == end_day;
    if same_day {
        push_number(&mut out, year);
    } else if year == end_year && month == end_month {
        out.push_str(" - ");
        out.push_str(text::decimal_text(end_day as u64).as_str());
        push_number(&mut out, year);
    } else if year == end_year {
        out.push_str(" - ");
        out.push_str(end_name);
        push_number(&mut out, end_day);
        push_number(&mut out, year);
    } else {
        push_number(&mut out, year);
        out.push_str(" - ");
        out.push_str(end_name);
        push_number(&mut out, end_day);
        push_number(&mut out, end_year);
    }
    Some(out)
}

/// The small-letter form of a text.
pub uninterp spec fn lowercase(s: Seq<char>) -> Seq<char>;

/// Calls `str::to_lowercase`. Nothing is said of how letters map, only that
/// the same text always has the same small-letter form.
#[verifier::external_body]
fn to_lowercase(s: &str) -> (r: String)
    ensures
        r@ == lowercase(s@),
{
    s.to_lowercase()
}

/// Whether a character has the Unicode property `White_Space`: the tab and
/// the line breaks beside it, the blank, the next-line and no-break blanks, and
/// the blanks and separators of general punctuation, Ogham and CJK.
pub open spec fn white_space(c: char) -> bool {
    let n = c as u32;
    0x09 <= n <= 0x0d || n == 0x20 || n == 0x85 || n == 0xa0 || n == 0x1680 || 0x2000 <= n <= 0x200a
        || n == 0x2028 || n == 0x2029 || n == 0x202f || n == 0x205f || n == 0x3000
}

/// Calls `char::is_whitespace`, which tells whether a character has the
/// property `White_Space`.
#[verifier::external_body]
fn is_white_space(c: char) -> (r: bool)
    ensures
        r == white_space(c),
{
    c.is_whitespace()
}

/// Month-name aliases for the library search, mapping a small-letter month
/// name to its month number.
#[derive(Debug)]
pub struct MonthAliases {
    pub names: Vec<(String, u32)>,
}

/// The month of the first alias that is the given text.
pub open spec fn month_of(names: Seq<(String, u32)>, token: Seq<char>) -> Option<u32>
    decreases names.len(),
{
    if names.len() == 0 {
        None
    } else if names[0].0@ == token {
        Some(names[0].1)
    } else {
        month_of(names.drop_first(), token)
    }
}

impl MonthAliases {
    /// The month that a small-letter text names.
    pub open spec fn month(self, token: Seq<char>) -> Option<u32> {
        month_of(self.names@, token)
    }

    /// The month that a text in small letters names.
    pub fn lookup_lowered(&self, token: &str) -> (r: Option<u32>)
        ensures
            r == self.month(token@),
    {
        let mut i: usize = 0;
        assert(self.names@.skip(0) =~= self.names@);
        while i < self.names.len()
            invariant
                i <= self.names@.len(),
                month_of(self.names@.skip(i as int), token@) == self.month(token@),
            decreases self.names@.len() - i,
        {
            if text::same_text(self.names[i].0.as_str(), token) {
                return Some(self.names[i].1);
            }
            assert(self.names@.skip(i as int).drop_first() =~= self.names@.skip(i + 1));
            i += 1;
        }
        None
    }

    /// `Some(month)` when `token` names a month, in any mix of small and
    /// capital letters.
    pub fn lookup(&self, token: &str) -> (r: Option<u32>)
        ensures
            r == self.month(lowercase(token@)),
    {
        let lowered: String = to_lowercase(token);
        self.lookup_lowered(lowered.as_str())
    }

    /// The English full month names.
    pub open spec fn english(month: int) -> Seq<char> {
        if month == 1 {
            "january"@
        } else if month == 2 {
            "february"@
        } else if month == 3 {
            "march"@
        } else if month == 4 {
            "april"@
        } else if month == 5 {
            "may"@
        } else if month == 6 {
            "june"@
        } else if month == 7 {
            "july"@
        } else if month == 8 {
            "august"@
        } else if month == 9 {
            "september"@
        } else if month == 10 {
            "october"@
        } else if month == 11 {
            "november"@
        } else {
            "december"@
        }
    }

    fn english_name(month: u32) -> (r: &'static str)
        ensures
            r@ == Self::english(month as int),
    {
        if month == 1 {
            "january"
        } else if month == 2 {
            "february"
        } else if month == 3 {
            "march"
        } else if month == 4 {
            "april"
        } else if month == 5 {
            "may"
        } else if month == 6 {
            "june"
        } else if month == 7 {
            "july"
        } else if month == 8 {
            "august"
        } else if month == 9 {
            "september"
        } else if month == 10 {
            "october"
        } else if month == 11 {
            "november"
        } else {
            "december"
        }
    }

    /// Whether a list holds, at a month's place, its English name and the first
    /// three letters of that.
    pub open spec fn spells(names: Seq<(String, u32)>, m: int) -> bool {
        &&& names[2 * m - 2].0@ == Self::english(m) && names[2 * m - 2].1 == m
        &&& names[2 * m - 1].0@ == Self::english(m).take(3) && names[2 * m - 1].1 == m
    }

    /// Whether a list holds, in order, each English month name and its first
    /// three letters, and then one more spelling of September.
    pub open spec fn is_english(names: Seq<(String, u32)>) -> bool {
        &&& names.len() == 25
        &&& forall|m: int| 1 <= m <= 12 ==> #[trigger] Self::spells(names, m)
        &&& names[24].0@ == "sept"@ && names[24].1 == 9
    }

    /// The English full and 3-letter month names, recognized in every locale.
    pub fn english_aliases() -> (r: Vec<(String, u32)>)
        ensures
            Self::is_english(r@),
    {
        let mut names: Vec<(String, u32)> = Vec::new();
        let mut month: u32 = 1;
        while month <= 12
            invariant
                1 <= month <= 13,
                names@.len() == 2 * month - 2,
                forall|m: int| 1 <= m < month ==> #[trigger] Self::spells(names@, m),
            decreases 13 - month,
        {
            let full: &str = Self::english_name(month);
            let chars: Vec<char> = text::chars_of(full);
            proof {
                Self::english_is_long_enough(month as int);
            }
            let short: String = text::text_from(chars.as_slice(), 0, 3);
            assert(short@ =~= full@.take(3));
            let ghost before = names@;
            names.push((full.to_owned(), month));
            names.push((short, month));
            proof {
                assert forall|m: int| 1 <= m <= month implies #[trigger] Self::spells(names@, m) by {
                    if m < month {
                        assert(Self::spells(before, m));
                    }
                }
            }
            month = month + 1;
        }
        let ghost before = names@;
        names.push(("sept".to_owned(), 9));
        proof {
            assert forall|m: int| 1 <= m <= 12 implies #[trigger] Self::spells(names@, m) by {
                assert(Self::spells(before, m));
            }
        }
        names
    }

    proof fn english_is_long_enough(month: int)
        ensures
            Self::english(month).len() >= 3,
    {
        reveal_strlit("january");
        reveal_strlit("february");
        reveal_strlit("march");
        reveal_strlit("april");
        reveal_strlit("may");
        reveal_strlit("june");
        reveal_strlit("july");
        reveal_strlit("august");
        reveal_strlit("september");
        reveal_strlit("october");
        reveal_strlit("november");
        reveal_strlit("december");
    }

    /// Builds the aliases: the given localized short month names, in month
    /// order, plus the always-recognized English ones.
    pub fn new(localized_short: &[String; 12]) -> (r: Self)
        ensures
            r.names@.len() == 37,
            forall|i: int|
                0 <= i < 12 ==> (#[trigger] r.names@[i]).0@ == lowercase(localized_short@[i]@)
                    && r.names@[i].1 == i + 1,
            Self::is_english(r.names@.skip(12)),
    {
        let mut names: Vec<(String, u32)> = Vec::new();
        let mut i: usize = 0;
        while i < 12
            invariant
                i <= 12,
                names@.len() == i,
                forall|j: int|
                    0 <= j < i ==> (#[trigger] names@[j]).0@ == lowercase(localized_short@[j]@)
                        && names@[j].1 == j + 1,
            decreases 12 - i,
        {
            names.push((to_lowercase(localized_short[i].as_str()), (i + 1) as u32));
            i += 1;
        }
        let ghost first = names@;
        let mut english: Vec<(String, u32)> = Self::english_aliases();
        let ghost second = english@;
        names.append(&mut english);
        assert(names@ =~= first + second);
        assert(names@.skip(12) =~= second);
        MonthAliases { names }
    }
}

/// One token of a library search.
#[derive(Debug)]
pub enum SearchTerm {
    /// A plain term matched against the roll name.
    Text(String),
    /// A date-shaped term matched against the roll name or the roll's dates;
    /// an absent part matches anything.
    Date { text: String, month: Option<u32>, year: Option<u32> },
}

/// What a search term asks for.
#[verifier::ext_equal]
pub enum TermModel {
    Text(Seq<char>),
    Date { text: Seq<char>, month: Option<u32>, year: Option<u32> },
}

impl SearchTerm {
    /// The model of a term.
    pub open spec fn model(self) -> TermModel {
        match self {
            SearchTerm::Text(t) => TermModel::Text(t@),
            SearchTerm::Date { text, month, year } => TermModel::Date { text: text@, month, year },
        }
    }
}

/// The models of a list of terms.
pub open spec fn models(terms: Seq<SearchTerm>) -> Seq<TermModel> {
    terms.map_values(|t: SearchTerm| t.model())
}

/// What a small-letter token asks for: a year where it is four digits, a month
/// where it names one, else plain text.
pub open spec fn term_of(token: Seq<char>, months: MonthAliases) -> TermModel {
    if token.len() == 4 && text::all_digits(token) {
        TermModel::Date { text: token, month: None, year: Some(text::number(token) as u32) }
    } else {
        match months.month(token) {
            Some(month) => TermModel::Date { text: token, month: Some(month), year: None },
            None => TermModel::Text(token),
        }
    }
}

/// Classifies one token that is in small letters.
pub fn classify(token: String, months: &MonthAliases) -> (r: SearchTerm)
    ensures
        r.model() == term_of(token@, *months),
{
    let chars: Vec<char> = text::chars_of(token.as_str());
    if chars.len() == 4 {
        let mut digits: bool = true;
        let mut i: usize = 0;
        while i < 4
            invariant
                i <= 4,
                chars@ == token@,
                chars@.len() == 4,
                digits <==> forall|j: int| 0 <= j < i ==> text::is_digit(#[trigger] chars@[j]),
            decreases 4 - i,
        {
            if chars[i] < '0' || chars[i] > '9' {
                assert(!text::is_digit(chars@[i as int]));
                digits = false;
            }
            i += 1;
        }
        if digits {
            assert(token@[0] != '+') by {
                assert(text::is_digit(token@[0]));
            }
            proof {
                four_digits_fit(token@);
            }
            let year: Option<u32> = text::parse_u32(token.as_str());
            return SearchTerm::Date { text: token, month: None, year };
        }
    }
    match months.lookup_lowered(token.as_str()) {
        Some(month) => SearchTerm::Date { text: token, month: Some(month), year: None },
        None => SearchTerm::Text(token),
    }
}

proof fn four_digits_fit(s: Seq<char>)
    requires
        s.len() == 4,
        text::all_digits(s),
    ensures
        number_below(s, 10_000),
{
    reveal_with_fuel(text::number, 5);
    assert(text::is_digit(s[0]) && text::is_digit(s[1]) && text::is_digit(s[2]) && text::is_digit(
        s[3],
    ));
    assert(s.drop_last().last() == s[2]);
    assert(s.drop_last().drop_last().last() == s[1]);
    assert(s.drop_last().drop_last().drop_last().last() == s[0]);
}

spec fn number_below(s: Seq<char>, bound: int) -> bool {
    0 <= text::number(s) < bound
}

/// How many characters a text has before its first white space.
pub open spec fn word_length(s: Seq<char>) -> nat
    decreases s.len(),
{
    if s.len() == 0 || white_space(s[0]) {
        0
    } else {
        1 + word_length(s.drop_first())
    }
}

/// The parts of a text between white space.
pub open spec fn words(s: Seq<char>) -> Seq<Seq<char>>
    decreases s.len(),
{
    if s.len() == 0 {
        Seq::empty()
    } else if white_space(s[0]) {
        words(s.drop_first())
    } else if word_length(s) <= s.len() {
        seq![s.take(word_length(s) as int)] + words(s.skip(word_length(s) as int))
    } else {
        Seq::empty()
    }
}

proof fn word_length_fits(s: Seq<char>)
    ensures
        word_length(s) <= s.len(),
    decreases s.len(),
{
    if s.len() > 0 && !white_space(s[0]) {
        word_length_fits(s.drop_first());
    }
}

/// Whether a text is nothing but white space.
pub open spec fn blank(s: Seq<char>) -> bool {
    forall|i: int| 0 <= i < s.len() ==> white_space(#[trigger] s[i])
}

/// A blank text has no words.
pub proof fn blank_has_no_words(s: Seq<char>)
    requires
        blank(s),
    ensures
        words(s).len() == 0,
    decreases s.len(),
{
    if s.len() > 0 {
        assert(white_space(s[0]));
        assert(blank(s.drop_first())) by {
            assert forall|i: int| 0 <= i < s.drop_first().len() implies white_space(
                #[trigger] s.drop_first()[i],
            ) by {
                assert(white_space(s[i + 1]));
            }
        }
        blank_has_no_words(s.drop_first());
    }
}

/// What a query asks for: one term for each of its words, in small letters.
pub open spec fn query_terms(query: Seq<char>, months: MonthAliases) -> Seq<TermModel> {
    words(query).map_values(|w: Seq<char>| term_of(lowercase(w), months))
}

/// Splits `query` into independent search terms: separated by white space,
/// each token classified as a 4-digit year, a month name, or plain text. An
/// empty (or blank) query yields none, which matches every roll.
pub fn parse_search_query(query: &str, months: &MonthAliases) -> (r: Vec<SearchTerm>)
    ensures
        models(r@) == query_terms(query@, *months),
{
    let chars: Vec<char> = text::chars_of(query);
    let mut terms: Vec<SearchTerm> = Vec::new();
    let mut i: usize = 0;
    let ghost all = words(query@);
    proof {
        assert(chars@.skip(0) =~= query@);
        assert(all =~= Seq::<Seq<char>>::empty() + words(chars@.skip(0)));
    }
    let ghost mut done: Seq<Seq<char>> = Seq::empty();
    while i < chars.len()
        invariant
            chars@ == query@,
            i <= chars@.len(),
            all == words(query@),
            all == done + words(chars@.skip(i as int)),
            models(terms@) == done.map_values(|w: Seq<char>| term_of(lowercase(w), *months)),
        decreases chars@.len() - i,
    {
        let ghost rest = chars@.skip(i as int);
        if is_white_space(chars[i]) {
            assert(rest.drop_first() =~= chars@.skip(i + 1));
            i += 1;
        } else {
            let start: usize = i;
            i += 1;
            assert(rest.skip(1) =~= rest.drop_first());
            while i < chars.len() && !is_white_space(chars[i])
                invariant
                    start < i <= chars@.len(),
                    rest == chars@.skip(start as int),
                    word_length(rest) == (i - start) + word_length(rest.skip(i - start)),
                decreases chars@.len() - i,
            {
                assert(rest.skip(i - start).drop_first() =~= rest.skip(i - start + 1));
                i += 1;
            }
            let word: String = text::text_from(chars.as_slice(), start, i);
            proof {
                word_length_fits(rest);
                assert(word@ =~= rest.take(i - start));
                assert(rest.skip(i - start) =~= chars@.skip(i as int));
            }
            let lowered: String = to_lowercase(word.as_str());
            let ghost before = terms@;
            terms.push(classify(lowered, months));
            proof {
                let next = done.push(word@);
                assert(models(terms@) =~= models(before).push(
                    term_of(lowercase(word@), *months),
                ));
                assert(done + (seq![word@] + words(chars@.skip(i as int))) =~= next + words(
                    chars@.skip(i as int),
                ));
                assert(models(terms@) =~= next.map_values(
                    |w: Seq<char>| term_of(lowercase(w), *months),
                ));
                done = next;
            }
        }
    }
    assert(chars@.skip(i as int) =~= Seq::<char>::empty());
    assert(done =~= all);
    terms
}

/// Whether a text occurs in another.
pub open spec fn occurs_in(needle: Seq<char>, hay: Seq<char>) -> bool {
    exists|i: int|
        0 <= i <= hay.len() - needle.len() && #[trigger] hay.subrange(i, i + needle.len())
            == needle
}

fn text_occurs(needle: &str, hay: &str) -> (r: bool)
    ensures
        r == occurs_in(needle@, hay@),
{
    let n: Vec<char> = text::chars_of(needle);
    let h: Vec<char> = text::chars_of(hay);
    let total: usize = h.len();
    if n.len() > total {
        return false;
    }
    let last: usize = total - n.len();
    let mut i: usize = 0;
    while i <= last
        invariant
            n@ == needle@,
            h@ == hay@,
            i <= last + 1,
            total == h@.len(),
            n@.len() <= total,
            last == total - n@.len(),
            forall|j: int| 0 <= j < i ==> #[trigger] h@.subrange(j, j + n@.len()) != n@,
        decreases last + 1 - i,
    {
        let mut k: usize = 0;
        while k < n.len() && n[k] == h[i + k]
            invariant
                k <= n@.len(),
                i <= last,
                total == h@.len(),
                n@.len() <= total,
                last == total - n@.len(),
                h@.subrange(i as int, i + k) == n@.take(k as int),
            decreases n@.len() - k,
        {
            k += 1;
            assert(h@.subrange(i as int, i + k) =~= n@.take(k as int));
        }
        if k == n.len() {
            assert(n@.take(k as int) =~= n@);
            return true;
        }
        assert(h@.subrange(i as int, i + n@.len())[k as int] == h@[i + k]);
        if i == last {
            proof {
                assert forall|j: int| 0 <= j <= hay@.len() - needle@.len() implies #[trigger]
                hay@.subrange(j, j + needle@.len()) != needle@ by {
                    if j < i {
                        assert(h@.subrange(j, j + n@.len()) != n@);
                    }
                }
            }
            return false;
        }
        i += 1;
    }
    false
}

/// Whether a date, given by its text, has a wanted month and year.
pub open spec fn date_answers(date: Option<Seq<char>>, month: Option<u32>, year: Option<u32>) -> bool {
    date is Some && dates::iso_date(date.unwrap()) is Some && {
        let (y, m, _d) = dates::iso_date(date.unwrap()).unwrap();
        (year is None || year == Some(y)) && (month is None || month == Some(m))
    }
}

/// Whether a roll answers one term: its name, in small letters, holds the
/// term's text, or, for a date term, one of its dates answers.
pub open spec fn answers(roll: RollModel, term: TermModel) -> bool {
    match term {
        TermModel::Text(t) => occurs_in(t, lowercase(roll.name)),
        TermModel::Date { text, month, year } => occurs_in(text, lowercase(roll.name))
            || date_answers(roll.start_date, month, year) || date_answers(
            roll.end_date,
            month,
            year,
        ),
    }
}

/// Whether a roll answers every term.
pub open spec fn answers_all(roll: RollModel, terms: Seq<TermModel>) -> bool {
    forall|i: int| 0 <= i < terms.len() ==> answers(roll, #[trigger] terms[i])
}

fn date_matches(date: &Option<String>, month: Option<u32>, year: Option<u32>) -> (r: bool)
    ensures
        r == date_answers(text::text_of(*date), month, year),
{
    match date {
        None => false,
        Some(iso) => match dates::parse_iso_date(iso.as_str()) {
            None => false,
            Some((y, m, _d)) => {
                let year_fits: bool = match year {
                    Some(wanted) => wanted == y,
                    None => true,
                };
                let month_fits: bool = match month {
                    Some(wanted) => wanted == m,
                    None => true,
                };
                year_fits && month_fits
            },
        },
    }
}

/// Whether `roll`, whose name in small letters is `name`, satisfies every term.
pub fn lowered_name_matches(roll: &Roll, name: &str, terms: &[SearchTerm]) -> (r: bool)
    requires
        name@ == lowercase(roll.name@),
    ensures
        r == answers_all(roll.model(), models(terms@)),
{
    let mut i: usize = 0;
    while i < terms.len()
        invariant
            i <= terms@.len(),
            name@ == lowercase(roll.name@),
            forall|j: int| 0 <= j < i ==> answers(roll.model(), #[trigger] models(terms@)[j]),
        decreases terms@.len() - i,
    {
        assert(models(terms@)[i as int] == terms@[i as int].model());
        let fits: bool = match &terms[i] {
            SearchTerm::Text(t) => text_occurs(t.as_str(), name),
            SearchTerm::Date { text: t, month, year } => {
                text_occurs(t.as_str(), name) || date_matches(&roll.start_date, *month, *year)
                    || date_matches(&roll.end_date, *month, *year)
            },
        };
        if !fits {
            assert(!answers(roll.model(), models(terms@)[i as int]));
            return false;
        }
        i += 1;
    }
    true
}

/// Whether `roll` satisfies every term. No terms match every roll.
pub fn roll_matches_terms(roll: &Roll, terms: &[SearchTerm]) -> (r: bool)
    ensures
        r == answers_all(roll.model(), models(terms@)),
{
    let name: String = to_lowercase(roll.name.as_str());
    lowered_name_matches(roll, name.as_str(), terms)
}

/// The rolls that answer all terms, in their order.
pub open spec fn answering(rolls: Seq<RollModel>, terms: Seq<TermModel>) -> Seq<RollModel>
    decreases rolls.len(),
{
    if rolls.len() == 0 {
        Seq::empty()
    } else if answers_all(rolls.last(), terms) {
        answering(rolls.drop_last(), terms).push(rolls.last())
    } else {
        answering(rolls.drop_last(), terms)
    }
}

/// Rolls matching the toolbar query: every token must match the roll name or a
/// committed roll date.
pub fn filtered_rolls<'a>(rolls: &'a [Roll], query: &str, months: &MonthAliases) -> (r: Vec<
    &'a Roll,
>)
    ensures
        r@.map_values(|x: &Roll| x.model()) == answering(
            roll_models(rolls@),
            query_terms(query@, *months),
        ),
{
    let terms: Vec<SearchTerm> = parse_search_query(query, months);
    let ghost wanted = query_terms(query@, *months);
    let mut out: Vec<&'a Roll> = Vec::new();
    let mut i: usize = 0;
    let ghost all = roll_models(rolls@);
    assert(all.take(0) =~= Seq::<RollModel>::empty());
    assert(out@.map_values(|x: &Roll| x.model()) =~= Seq::<RollModel>::empty());
    while i < rolls.len()
        invariant
            i <= rolls@.len(),
            models(terms@) == wanted,
            all == roll_models(rolls@),
            out@.map_values(|x: &Roll| x.model()) == answering(all.take(i as int), wanted),
        decreases rolls@.len() - i,
    {
        assert(all.take(i + 1).drop_last() =~= all.take(i as int));
        let ghost before = out@;
        if roll_matches_terms(&rolls[i], terms.as_slice()) {
            out.push(&rolls[i]);
            assert(out@.map_values(|x: &Roll| x.model()) =~= before.map_values(
                |x: &Roll| x.model(),
            ).push(all[i as int]));
        }
        i += 1;
    }
    assert(all.take(all.len() as int) =~= all);
    out
}

/// The words of two texts with white space between them are those of the one
/// and then those of the other.
proof fn words_of_two(a: Seq<char>, c: char, b: Seq<char>)
    requires
        white_space(c),
    ensures
        words(a.push(c) + b) == words(a) + words(b),
    decreases a.len(),
{
    let all = a.push(c) + b;
    if a.len() == 0 {
        assert(all.drop_first() =~= b);
        assert(words(a) + words(b) =~= words(b));
    } else if white_space(a[0]) {
        assert(all.drop_first() =~= a.drop_first().push(c) + b);
        words_of_two(a.drop_first(), c, b);
    } else {
        word_length_fits(a);
        word_length_fits(all);
        word_ends_before(a, c, b);
        let n = word_length(a) as int;
        let rest = a.skip(n);
        assert(all.take(n) =~= a.take(n));
        assert(all.skip(n) =~= rest.push(c) + b);
        words_of_two(rest, c, b);
        assert(words(a) + words(b) =~= seq![a.take(n)] + (words(rest) + words(b)));
    }
}

/// A word ends before the white space behind it.
proof fn word_ends_before(a: Seq<char>, c: char, b: Seq<char>)
    requires
        white_space(c),
    ensures
        word_length(a.push(c) + b) == word_length(a),
    decreases a.len(),
{
    let all = a.push(c) + b;
    if a.len() > 0 && !white_space(a[0]) {
        assert(all.drop_first() =~= a.drop_first().push(c) + b);
        word_ends_before(a.drop_first(), c, b);
    }
}

/// A roll answers a query of two parts with white space between them exactly
/// where it answers both.
pub proof fn queries_are_and_composed(
    roll: RollModel,
    first: Seq<char>,
    c: char,
    second: Seq<char>,
    months: MonthAliases,
)
    requires
        white_space(c),
    ensures
        answers_all(roll, query_terms(first.push(c) + second, months)) <==> answers_all(
            roll,
            query_terms(first, months),
        ) && answers_all(roll, query_terms(second, months)),
{
    let a = query_terms(first, months);
    let b = query_terms(second, months);
    words_of_two(first, c, second);
    assert(query_terms(first.push(c) + second, months) =~= a + b);
    if answers_all(roll, a + b) {
        assert forall|i: int| 0 <= i < a.len() implies answers(roll, #[trigger] a[i]) by {
            assert((a + b)[i] == a[i]);
        }
        assert forall|i: int| 0 <= i < b.len() implies answers(roll, #[trigger] b[i]) by {
            assert((a + b)[a.len() + i] == b[i]);
        }
    }
}

/// A query of two parts finds, in their order, those of the rolls found by the
/// one part that the other finds too; a blank query finds all rolls.
pub proof fn searches_narrow_one_another(
    rolls: Seq<RollModel>,
    first: Seq<char>,
    c: char,
    second: Seq<char>,
    months: MonthAliases,
)
    requires
        white_space(c),
    ensures
        answering(rolls, query_terms(first.push(c) + second, months)) == answering(
            answering(rolls, query_terms(first, months)),
            query_terms(second, months),
        ),
        blank(first) ==> answering(rolls, query_terms(first, months)) == rolls,
    decreases rolls.len(),
{
    if blank(first) {
        blank_has_no_words(first);
    }
    if rolls.len() > 0 {
        searches_narrow_one_another(rolls.drop_last(), first, c, second, months);
        queries_are_and_composed(rolls.last(), first, c, second, months);
        let before = answering(rolls.drop_last(), query_terms(first, months));
        assert(before.push(rolls.last()).drop_last() =~= before);
        assert(rolls.drop_last().push(rolls.last()) =~= rolls);
    }
}

/// A search picks out the rolls that answer, each as often as it stands there
/// and in the same order, and a roll is found exactly where it answers.
pub proof fn searches_keep_the_order(rolls: Seq<RollModel>, terms: Seq<TermModel>)
    ensures
        answering(rolls, terms) == rolls.filter(|r: RollModel| answers_all(r, terms)),
        forall|r: RollModel|
            #[trigger] answering(rolls, terms).contains(r) <==> rolls.contains(r) && answers_all(
                r,
                terms,
            ),
    decreases rolls.len(),
{
    reveal(Seq::filter);
    let found = answering(rolls, terms);
    if rolls.len() > 0 {
        let init = rolls.drop_last();
        searches_keep_the_order(init, terms);
        let before = answering(init, terms);
        assert forall|r: RollModel| #[trigger] found.contains(r) <==> rolls.contains(r)
            && answers_all(r, terms) by {
            assert(rolls.contains(r) <==> init.contains(r) || r == rolls.last()) by {
                if rolls.contains(r) {
                    let k = choose|k: int| 0 <= k < rolls.len() && rolls[k] == r;
                    if k < init.len() {
                        assert(init[k] == r);
                    }
                }
                if init.contains(r) {
                    let k = choose|k: int| 0 <= k < init.len() && init[k] == r;
                    assert(rolls[k] == r);
                }
                assert(rolls[rolls.len() - 1] == rolls.last());
            }
            if answers_all(rolls.last(), terms) {
                assert(found.contains(r) <==> before.contains(r) || r == rolls.last()) by {
                    if found.contains(r) {
                        let k = choose|k: int| 0 <= k < found.len() && found[k] == r;
                        if k < before.len() {
                            assert(before[k] == r);
                        }
                    }
                    if before.contains(r) {
                        let k = choose|k: int| 0 <= k < before.len() && before[k] == r;
                        assert(found[k] == r);
                    }
                    assert(found[found.len() - 1] == rolls.last());
                }
            }
            assert(before.contains(r) <==> init.contains(r) && answers_all(r, terms));
        }
    }
}

/// Whether one roll comes no later than another in the library grid: undated
/// rolls lead, by name; dated ones follow, the newest start date first, and
/// the name decides among rolls of one day.
pub open spec fn no_later(a: RollModel, b: RollModel) -> bool {
    match (a.start_date, b.start_date) {
        (None, None) => text::text_le(a.name, b.name),
        (None, Some(_)) => true,
        (Some(_), None) => false,
        (Some(x), Some(y)) => if x == y {
            text::text_le(a.name, b.name)
        } else {
            text::text_le(y, x)
        },
    }
}

/// Any two rolls have an order in the grid.
pub proof fn grid_order_total(a: RollModel, b: RollModel)
    ensures
        no_later(a, b) || no_later(b, a),
{
    text::text_order_total(a.name, b.name);
    if a.start_date is Some && b.start_date is Some {
        text::text_order_total(a.start_date.unwrap(), b.start_date.unwrap());
    }
}

/// The order of the grid is transitive.
pub proof fn grid_order_transitive(a: RollModel, b: RollModel, c: RollModel)
    requires
        no_later(a, b),
        no_later(b, c),
    ensures
        no_later(a, c),
{
    if a.start_date is Some && b.start_date is Some && c.start_date is Some {
        let (x, y, z) = (
            a.start_date.unwrap(),
            b.start_date.unwrap(),
            c.start_date.unwrap(),
        );
        if x == y && y == z {
            text::text_order_transitive(a.name, b.name, c.name);
        } else if x == z {
            text::text_order_antisymmetric(x, y);
        } else if x != y && y != z {
            text::text_order_transitive(z, y, x);
        }
    } else if a.start_date is None && b.start_date is None && c.start_date is None {
        text::text_order_transitive(a.name, b.name, c.name);
    }
}

/// Whether `a` comes no later than `b` in the library grid.
pub fn roll_date_order(a: &Roll, b: &Roll) -> (r: bool)
    ensures
        r == no_later(a.model(), b.model()),
{
    match (&a.start_date, &b.start_date) {
        (None, None) => text::at_most(a.name.as_str(), b.name.as_str()),
        (None, Some(_)) => true,
        (Some(_), None) => false,
        (Some(x), Some(y)) => {
            if text::same_text(x.as_str(), y.as_str()) {
                text::at_most(a.name.as_str(), b.name.as_str())
            } else {
                text::at_most(y.as_str(), x.as_str())
            }
        },
    }
}

/// Which library cell is selected: the Add Roll tile or the roll of a
/// directory.
#[derive(Debug)]
pub enum LibrarySelection {
    AddRoll,
    Roll(String),
}

/// What a selection names.
pub enum SelectionModel {
    AddRoll,
    Roll(Seq<char>),
}

impl LibrarySelection {
    /// The model of a selection.
    pub open spec fn model(self) -> SelectionModel {
        match self {
            LibrarySelection::AddRoll => SelectionModel::AddRoll,
            LibrarySelection::Roll(dir) => SelectionModel::Roll(dir@),
        }
    }

    /// Whether two selections name the same cell.
    pub fn same(&self, other: &LibrarySelection) -> (r: bool)
        ensures
            r == (self.model() == other.model()),
    {
        match (self, other) {
            (LibrarySelection::AddRoll, LibrarySelection::AddRoll) => true,
            (LibrarySelection::Roll(a), LibrarySelection::Roll(b)) => {
                text::same_text(a.as_str(), b.as_str())
            },
            _ => false,
        }
    }
}

impl Clone for LibrarySelection {
    fn clone(&self) -> (r: Self)
        ensures
            r == *self,
    {
        match self {
            LibrarySelection::AddRoll => LibrarySelection::AddRoll,
            LibrarySelection::Roll(dir) => LibrarySelection::Roll(dir.clone()),
        }
    }
}

/// A selectable cell in the library grid.
#[derive(Debug)]
pub enum LibraryCell<'a> {
    /// The Add Roll tile.
    AddRoll,
    /// A real roll card.
    Roll(&'a Roll),
}

impl<'a> LibraryCell<'a> {
    /// The selection that a cell carries.
    pub open spec fn carries(self) -> SelectionModel {
        match self {
            LibraryCell::AddRoll => SelectionModel::AddRoll,
            LibraryCell::Roll(roll) => SelectionModel::Roll(roll.dir@),
        }
    }

    /// The [`LibrarySelection`] this cell carries, for storing a picked cell.
    pub fn selection(&self) -> (r: LibrarySelection)
        ensures
            r.model() == self.carries(),
    {
        match self {
            LibraryCell::AddRoll => LibrarySelection::AddRoll,
            LibraryCell::Roll(roll) => LibrarySelection::Roll(roll.dir.clone()),
        }
    }
}

/// Whether `ps` lists the places of a set of rolls in grid order: each place
/// once, and of rolls that the order does not tell apart the one listed first
/// in the library first.
pub open spec fn in_grid_order(rolls: Seq<RollModel>, picked: Set<int>, ps: Seq<int>) -> bool {
    &&& forall|i: int| 0 <= i < ps.len() ==> picked.contains(#[trigger] ps[i])
    &&& forall|p: int| #[trigger] picked.contains(p) ==> ps.contains(p)
    &&& forall|i: int, j: int|
        0 <= i < j < ps.len() ==> precedes(rolls, #[trigger] ps[i], #[trigger] ps[j])
}

/// Whether the roll at place `p` stands before the one at place `q`.
pub open spec fn precedes(rolls: Seq<RollModel>, p: int, q: int) -> bool {
    no_later(rolls[p], rolls[q]) && (no_later(rolls[q], rolls[p]) ==> p < q)
}

/// The places of the rolls that answer all terms.
pub open spec fn answering_places(
    rolls: Seq<RollModel>,
    terms: Seq<TermModel>,
    end: int,
) -> Set<int> {
    Set::new(|p: int| 0 <= p < end && answers_all(rolls[p], terms))
}

/// The places of the rolls that answer a query, in grid order.
pub open spec fn grid_places(
    rolls: Seq<RollModel>,
    query: Seq<char>,
    months: MonthAliases,
) -> Seq<int> {
    choose|ps: Seq<int>|
        in_grid_order(
            rolls,
            answering_places(rolls, query_terms(query, months), rolls.len() as int),
            ps,
        )
}

/// Whether `cells` is what the library grid shows: the Add Roll tile while no
/// search is active, then the rolls that answer the query, in grid order.
pub open spec fn shows(
    rolls: Seq<RollModel>,
    query: Seq<char>,
    months: MonthAliases,
    cells: Seq<LibraryCell<'_>>,
) -> bool {
    &&& in_grid_order(
        rolls,
        answering_places(rolls, query_terms(query, months), rolls.len() as int),
        grid_places(rolls, query, months),
    )
    &&& cells_show(rolls, blank(query), grid_places(rolls, query, months), cells)
}

/// Whether `cells` are the Add Roll tile, where it leads, and the rolls at the
/// places `ps`.
pub open spec fn cells_show(
    rolls: Seq<RollModel>,
    tile: bool,
    ps: Seq<int>,
    cells: Seq<LibraryCell<'_>>,
) -> bool {
    let lead: int = if tile {
        1
    } else {
        0
    };
    &&& cells.len() == lead + ps.len()
    &&& tile ==> cells[0] is AddRoll
    &&& forall|i: int|
        lead <= i < cells.len() ==> (#[trigger] cells[i]) is Roll && cells[i]->Roll_0.model()
            == rolls[ps[i - lead]]
}

/// Only one listing of a set of rolls is in grid order, so what the grid shows
/// does not depend on anything but the rolls, the query and the month names.
pub proof fn grid_order_is_unique(rolls: Seq<RollModel>, picked: Set<int>, a: Seq<int>, b: Seq<int>)
    requires
        in_grid_order(rolls, picked, a),
        in_grid_order(rolls, picked, b),
    ensures
        a == b,
    decreases a.len(),
{
    if a.len() == 0 {
        if b.len() > 0 {
            assert(picked.contains(b[0]));
        }
        assert(a =~= b);
    } else if b.len() == 0 {
        assert(picked.contains(a[0]));
    } else {
        let x = a[0];
        let y = b[0];
        assert(picked.contains(x) && picked.contains(y));
        let k = choose|k: int| 0 <= k < b.len() && b[k] == x;
        let m = choose|m: int| 0 <= m < a.len() && a[m] == y;
        if k > 0 && m > 0 {
            assert(precedes(rolls, b[0], b[k]));
            assert(precedes(rolls, a[0], a[m]));
        }
        assert(x == y);
        let rest = picked.remove(x);
        rest_in_grid_order(rolls, picked, a);
        rest_in_grid_order(rolls, picked, b);
        grid_order_is_unique(rolls, rest, a.drop_first(), b.drop_first());
        assert(a =~= seq![x] + a.drop_first());
        assert(b =~= seq![y] + b.drop_first());
    }
}

/// Without its first place, a listing in grid order lists the rest.
proof fn rest_in_grid_order(rolls: Seq<RollModel>, picked: Set<int>, ps: Seq<int>)
    requires
        in_grid_order(rolls, picked, ps),
        ps.len() > 0,
    ensures
        in_grid_order(rolls, picked.remove(ps[0]), ps.drop_first()),
{
    let rest = ps.drop_first();
    assert forall|i: int| 0 <= i < rest.len() implies picked.remove(ps[0]).contains(
        #[trigger] rest[i],
    ) by {
        assert(rest[i] == ps[i + 1]);
        assert(precedes(rolls, ps[0], ps[i + 1]));
        grid_order_total(rolls[ps[0]], rolls[ps[0]]);
    }
    assert forall|p: int| #[trigger] picked.remove(ps[0]).contains(p) implies rest.contains(p) by {
        let k = choose|k: int| 0 <= k < ps.len() && ps[k] == p;
        assert(rest[k - 1] == p);
    }
    assert forall|i: int, j: int| 0 <= i < j < rest.len() implies precedes(
        rolls,
        #[trigger] rest[i],
        #[trigger] rest[j],
    ) by {
        assert(precedes(rolls, ps[i + 1], ps[j + 1]));
    }
}

/// The places in a list of places.
pub open spec fn places(v: Seq<usize>) -> Seq<int> {
    v.map_values(|p: usize| p as int)
}

/// Puts the roll at place `p` into a listing of rolls before it, in grid order.
fn insert_in_order(order: &mut Vec<usize>, rolls: &[Roll], p: usize, Ghost(picked): Ghost<Set<int>>)
    requires
        p < rolls@.len(),
        in_grid_order(roll_models(rolls@), picked, places(old(order)@)),
        forall|q: int| #[trigger] picked.contains(q) ==> 0 <= q < p,
    ensures
        in_grid_order(roll_models(rolls@), picked.insert(p as int), places(final(order)@)),
{
    let ghost models = roll_models(rolls@);
    let ghost before = places(order@);
    let mut at: usize = 0;
    proof {
        assert forall|i: int| 0 <= i < order@.len() implies (#[trigger] order@[i]) < rolls@.len() by {
            assert(picked.contains(before[i]));
        }
    }
    while at < order.len() && roll_date_order(&rolls[order[at]], &rolls[p])
        invariant
            at <= order@.len(),
            p < rolls@.len(),
            models == roll_models(rolls@),
            before == places(order@),
            forall|i: int| 0 <= i < order@.len() ==> (#[trigger] order@[i]) < rolls@.len(),
            in_grid_order(roll_models(rolls@), picked, before),
            forall|q: int| #[trigger] picked.contains(q) ==> 0 <= q < p,
            forall|i: int| 0 <= i < at ==> no_later(models[#[trigger] before[i]], models[p as int]),
        decreases order@.len() - at,
    {
        at += 1;
    }
    order.insert(at, p);
    let ghost after = places(order@);
    proof {
        assert(after =~= before.insert(at as int, p as int));
        assert forall|i: int| 0 <= i < after.len() implies picked.insert(p as int).contains(
            #[trigger] after[i],
        ) by {
            if i < at {
                assert(picked.contains(before[i]));
            } else if i > at {
                assert(picked.contains(before[i - 1]));
            }
        }
        assert forall|q: int| #[trigger] picked.insert(p as int).contains(q) implies after.contains(
            q,
        ) by {
            if q == p {
                assert(after[at as int] == q);
            } else {
                let k = choose|k: int| 0 <= k < before.len() && before[k] == q;
                if k < at {
                    assert(after[k] == q);
                } else {
                    assert(after[k + 1] == q);
                }
            }
        }
        assert forall|i: int, j: int| 0 <= i < j < after.len() implies precedes(
            models,
            #[trigger] after[i],
            #[trigger] after[j],
        ) by {
            let bi = if i < at {
                i
            } else {
                i - 1
            };
            let bj = if j < at {
                j
            } else {
                j - 1
            };
            if i != at && j != at {
                assert(precedes(models, before[bi], before[bj]));
            } else if j == at {
                assert(no_later(models[before[i]], models[p as int]));
                assert(picked.contains(before[i]));
            } else {
                let first = before[at as int];
                grid_order_total(models[first], models[p as int]);
                assert(picked.contains(before[bj]));
                if bj != at {
                    assert(precedes(models, first, before[bj]));
                    grid_order_transitive(models[p as int], models[first], models[before[bj]]);
                    if no_later(models[before[bj]], models[p as int]) {
                        grid_order_transitive(models[first], models[before[bj]], models[p as int]);
                    }
                }
            }
        }
    }
}

/// A listing with a later place put in before all that come after it.
proof fn put_in_grid_order(rolls: Seq<RollModel>, picked: Set<int>, before: Seq<int>, p: int) -> (after:
    Seq<int>)
    requires
        in_grid_order(rolls, picked, before),
        forall|q: int| #[trigger] picked.contains(q) ==> 0 <= q < p,
    ensures
        in_grid_order(rolls, picked.insert(p), after),
{
    let test = |q: int| !no_later(rolls[q], rolls[p]);
    seqs::first_where_is_first(before, test);
    let at = match seqs::first_where(before, test) {
        Some(k) => k,
        None => before.len() as int,
    };
    let after = before.insert(at, p);
    assert forall|i: int| 0 <= i < at implies no_later(rolls[#[trigger] before[i]], rolls[p]) by {
        assert(!test(before[i]));
    }
    assert forall|i: int| 0 <= i < after.len() implies picked.insert(p).contains(
        #[trigger] after[i],
    ) by {
        if i < at {
            assert(picked.contains(before[i]));
        } else if i > at {
            assert(picked.contains(before[i - 1]));
        }
    }
    assert forall|q: int| #[trigger] picked.insert(p).contains(q) implies after.contains(q) by {
        if q == p {
            assert(after[at] == q);
        } else {
            let k = choose|k: int| 0 <= k < before.len() && before[k] == q;
            if k < at {
                assert(after[k] == q);
            } else {
                assert(after[k + 1] == q);
            }
        }
    }
    assert forall|i: int, j: int| 0 <= i < j < after.len() implies precedes(
        rolls,
        #[trigger] after[i],
        #[trigger] after[j],
    ) by {
        let bi = if i < at {
            i
        } else {
            i - 1
        };
        let bj = if j < at {
            j
        } else {
            j - 1
        };
        if i != at && j != at {
            assert(precedes(rolls, before[bi], before[bj]));
        } else if j == at {
            assert(no_later(rolls[before[i]], rolls[p]));
            assert(picked.contains(before[i]));
        } else {
            let first = before[at];
            assert(test(first));
            grid_order_total(rolls[first], rolls[p]);
            assert(picked.contains(before[bj]));
            if bj != at {
                assert(precedes(rolls, first, before[bj]));
                grid_order_transitive(rolls[p], rolls[first], rolls[before[bj]]);
                if no_later(rolls[before[bj]], rolls[p]) {
                    grid_order_transitive(rolls[first], rolls[before[bj]], rolls[p]);
                }
            }
        }
    }
    after
}

/// The rolls before a place that answer have a listing in grid order.
proof fn answering_places_have_an_order(rolls: Seq<RollModel>, terms: Seq<TermModel>, end: int) -> (ps:
    Seq<int>)
    requires
        0 <= end <= rolls.len(),
    ensures
        in_grid_order(rolls, answering_places(rolls, terms, end), ps),
    decreases end,
{
    let now = answering_places(rolls, terms, end);
    if end == 0 {
        let none = Seq::<int>::empty();
        assert forall|q: int| #[trigger] now.contains(q) implies none.contains(q) by {}
        none
    } else {
        let before = answering_places(rolls, terms, end - 1);
        let ps = answering_places_have_an_order(rolls, terms, end - 1);
        if answers_all(rolls[end - 1], terms) {
            assert(now =~= before.insert(end - 1));
            put_in_grid_order(rolls, before, ps, end - 1)
        } else {
            assert(now =~= before);
            ps
        }
    }
}

/// The places that the grid shows are those of the rolls that answer, each
/// once: undated rolls first, by name, then dated ones, the latest start date
/// first, and by name among those of one day.
pub proof fn grid_places_in_order(rolls: Seq<RollModel>, query: Seq<char>, months: MonthAliases)
    ensures
        ({
            let ps = grid_places(rolls, query, months);
            let terms = query_terms(query, months);
            &&& in_grid_order(rolls, answering_places(rolls, terms, rolls.len() as int), ps)
            &&& forall|i: int|
                0 <= i < ps.len() ==> 0 <= #[trigger] ps[i] < rolls.len() && answers_all(
                    rolls[ps[i]],
                    terms,
                )
            &&& forall|p: int|
                0 <= p < rolls.len() && answers_all(#[trigger] rolls[p], terms) ==> ps.contains(p)
            &&& forall|i: int, j: int|
                0 <= i < j < ps.len() ==> {
                    let a = rolls[#[trigger] ps[i]];
                    let b = rolls[#[trigger] ps[j]];
                    &&& ps[i] != ps[j]
                    &&& b.start_date is None ==> a.start_date is None
                    &&& a.start_date is Some && b.start_date is Some ==> text::text_le(
                        b.start_date.unwrap(),
                        a.start_date.unwrap(),
                    )
                    &&& a.start_date == b.start_date ==> text::text_le(a.name, b.name)
                }
        }),
{
    let terms = query_terms(query, months);
    let picked = answering_places(rolls, terms, rolls.len() as int);
    let some = answering_places_have_an_order(rolls, terms, rolls.len() as int);
    let ps = grid_places(rolls, query, months);
    assert(in_grid_order(rolls, picked, ps));
    assert forall|i: int| 0 <= i < ps.len() implies 0 <= #[trigger] ps[i] < rolls.len()
        && answers_all(rolls[ps[i]], terms) by {
        assert(picked.contains(ps[i]));
    }
    assert forall|p: int| 0 <= p < rolls.len() && answers_all(#[trigger] rolls[p], terms) implies
        ps.contains(p) by {
        assert(picked.contains(p));
    }
    assert forall|i: int, j: int| 0 <= i < j < ps.len() implies {
        let a = rolls[#[trigger] ps[i]];
        let b = rolls[#[trigger] ps[j]];
        &&& ps[i] != ps[j]
        &&& b.start_date is None ==> a.start_date is None
        &&& a.start_date is Some && b.start_date is Some ==> text::text_le(
            b.start_date.unwrap(),
            a.start_date.unwrap(),
        )
        &&& a.start_date == b.start_date ==> text::text_le(a.name, b.name)
    } by {
        assert(precedes(rolls, ps[i], ps[j]));
        let a = rolls[ps[i]];
        grid_order_total(a, a);
        if a.start_date is Some {
            text::text_order_total(a.start_date.unwrap(), a.start_date.unwrap());
        }
    }
}

/// Every selectable cell in the library grid: the Add Roll tile first while no
/// search is active, then the rolls whose name or dates match the query, in
/// grid order.
pub fn library_cells<'a>(rolls: &'a [Roll], query: &str, months: &MonthAliases) -> (r: Vec<
    LibraryCell<'a>,
>)
    ensures
        shows(roll_models(rolls@), query@, *months, r@),
{
    let terms: Vec<SearchTerm> = parse_search_query(query, months);
    let ghost wanted = query_terms(query@, *months);
    let mut order: Vec<usize> = Vec::new();
    let mut p: usize = 0;
    assert(places(order@) =~= Seq::<int>::empty());
    while p < rolls.len()
        invariant
            p <= rolls@.len(),
            models(terms@) == wanted,
            in_grid_order(roll_models(rolls@), answering_places(roll_models(rolls@), wanted, p as int), places(order@)),
        decreases rolls@.len() - p,
    {
        let ghost picked = answering_places(roll_models(rolls@), wanted, p as int);
        if roll_matches_terms(&rolls[p], terms.as_slice()) {
            insert_in_order(&mut order, rolls, p, Ghost(picked));
            assert(picked.insert(p as int) =~= answering_places(roll_models(rolls@), wanted, p + 1));
        } else {
            assert(picked =~= answering_places(roll_models(rolls@), wanted, p + 1));
        }
        p += 1;
    }
    let ghost ps = places(order@);
    let tile: bool = query_is_blank(query);
    let mut cells: Vec<LibraryCell<'a>> = Vec::new();
    if tile {
        cells.push(LibraryCell::AddRoll);
    }
    let ghost lead: int = if tile {
        1
    } else {
        0
    };
    let mut i: usize = 0;
    while i < order.len()
        invariant
            i <= order@.len(),
            ps == places(order@),
            p == rolls@.len(),
            in_grid_order(roll_models(rolls@), answering_places(roll_models(rolls@), wanted, p as int), ps),
            lead == (if tile {
                1int
            } else {
                0
            }),
            cells@.len() == lead + i,
            tile ==> cells@[0] is AddRoll,
            forall|j: int|
                lead <= j < cells@.len() ==> (#[trigger] cells@[j]) is Roll && cells@[j]->Roll_0.model()
                    == roll_models(rolls@)[ps[j - lead]],
        decreases order@.len() - i,
    {
        assert(answering_places(roll_models(rolls@), wanted, p as int).contains(ps[i as int]));
        cells.push(LibraryCell::Roll(&rolls[order[i]]));
        i += 1;
    }
    proof {
        let models = roll_models(rolls@);
        let picked = answering_places(models, query_terms(query@, *months), models.len() as int);
        assert(in_grid_order(models, picked, ps));
        grid_order_is_unique(models, picked, ps, grid_places(models, query@, *months));
        assert(cells_show(models, tile, ps, cells@));
    }
    cells
}

/// Whether a query is empty or nothing but white space: no search is active.
pub fn query_is_blank(query: &str) -> (r: bool)
    ensures
        r == blank(query@),
{
    let chars: Vec<char> = text::chars_of(query);
    let mut i: usize = 0;
    while i < chars.len()
        invariant
            i <= chars@.len(),
            chars@ == query@,
            forall|j: int| 0 <= j < i ==> white_space(#[trigger] chars@[j]),
        decreases chars@.len() - i,
    {
        if !is_white_space(chars[i]) {
            assert(!white_space(query@[i as int]));
            return false;
        }
        i += 1;
    }
    true
}

/// While no search is active the grid always has a cell: the Add Roll tile,
/// before every roll.
pub proof fn idle_grid_leads_with_the_tile(
    rolls: Seq<RollModel>,
    query: Seq<char>,
    months: MonthAliases,
    cells: Seq<LibraryCell<'_>>,
)
    requires
        shows(rolls, query, months, cells),
        blank(query),
    ensures
        cells.len() >= 1,
        cells[0] is AddRoll,
        query_terms(query, months).len() == 0,
{
    blank_has_no_words(query);
}

/// The selections that the cells of the library grid carry, in order.
pub open spec fn grid_cells(
    rolls: Seq<RollModel>,
    query: Seq<char>,
    months: MonthAliases,
) -> Seq<SelectionModel> {
    let tile = if blank(query) {
        seq![SelectionModel::AddRoll]
    } else {
        Seq::empty()
    };
    tile + grid_places(rolls, query, months).map_values(
        |p: int| SelectionModel::Roll(rolls[p].dir),
    )
}

/// The selections that cells carry.
pub open spec fn carried(cells: Seq<LibraryCell<'_>>) -> Seq<SelectionModel> {
    cells.map_values(|c: LibraryCell<'_>| c.carries())
}

/// The cells that the grid shows carry the grid's selections.
pub proof fn shown_cells_carry_the_grid(
    rolls: Seq<RollModel>,
    query: Seq<char>,
    months: MonthAliases,
    cells: Seq<LibraryCell<'_>>,
)
    requires
        shows(rolls, query, months, cells),
    ensures
        carried(cells) == grid_cells(rolls, query, months),
{
    let want = grid_cells(rolls, query, months);
    let ps = grid_places(rolls, query, months);
    let lead: int = if blank(query) {
        1
    } else {
        0
    };
    assert(want.len() == lead + ps.len());
    assert forall|i: int| 0 <= i < cells.len() implies carried(cells)[i] == want[i] by {
        if i >= lead {
            assert(cells[i] is Roll && cells[i]->Roll_0.model() == rolls[ps[i - lead]]);
        }
    }
    assert(carried(cells) =~= want);
}

/// The test of being a given selection.
pub open spec fn is_selection(selection: SelectionModel) -> spec_fn(SelectionModel) -> bool {
    |s: SelectionModel| s == selection
}

/// The index of `selection` within `cells`, if it names a cell in the set.
pub fn library_cell_index(selection: Option<&LibrarySelection>, cells: &[LibraryCell<'_>]) -> (r:
    Option<usize>)
    ensures
        r is Some ==> r.unwrap() < cells@.len(),
        index_of(r) == (match selection {
            Some(s) => seqs::first_where(carried(cells@), is_selection(s.model())),
            None => None,
        }),
{
    let wanted: &LibrarySelection = match selection {
        Some(s) => s,
        None => {
            return None;
        },
    };
    let ghost test = is_selection(wanted.model());
    let mut i: usize = 0;
    while i < cells.len()
        invariant
            i <= cells@.len(),
            selection == Some(wanted),
            test == is_selection(wanted.model()),
            forall|j: int| 0 <= j < i ==> !test(#[trigger] carried(cells@)[j]),
        decreases cells@.len() - i,
    {
        if cells[i].selection().same(wanted) {
            proof {
                assert(test(carried(cells@)[i as int]));
                seqs::first_where_from_place(carried(cells@), test, i as int);
            }
            return Some(i);
        }
        assert(!test(carried(cells@)[i as int]));
        i += 1;
    }
    proof {
        seqs::first_where_from_place(carried(cells@), test, i as int);
    }
    None
}

/// An index as a number.
pub open spec fn index_of(o: Option<usize>) -> Option<int> {
    match o {
        Some(i) => Some(i as int),
        None => None,
    }
}

/// A number cut to at most `high`.
pub open spec fn at_most(x: int, high: int) -> int {
    if x > high {
        high
    } else {
        x
    }
}

/// A number cut to at least zero.
pub open spec fn at_least_zero(x: int) -> int {
    if x < 0 {
        0
    } else {
        x
    }
}

/// Where a step through a grid of `cols` columns and `len` cells leads.
pub open spec fn step(selected: int, len: int, cols: int, dir: MoveDir) -> int {
    match dir {
        MoveDir::Left => at_least_zero(selected - 1),
        MoveDir::Right => at_most(selected + 1, len - 1),
        MoveDir::Up => at_least_zero(selected - cols),
        MoveDir::Down => at_most(selected + cols, len - 1),
    }
}

/// Where an arrow key leads from a selection among `len` cells; without a
/// selection it leads to the first cell.
pub open spec fn nav_place(selected: Option<int>, len: int, cols: int, dir: MoveDir) -> Option<int> {
    if len == 0 {
        None
    } else {
        match selected {
            Some(s) => Some(
                step(
                    at_most(s, len - 1),
                    len,
                    if cols == 0 {
                        1
                    } else {
                        cols
                    },
                    dir,
                ),
            ),
            None => Some(0),
        }
    }
}

/// Where left and right lead from an open frame; up and down lead nowhere.
pub open spec fn page_place(current: int, len: int, dir: MoveDir) -> Option<int> {
    if len > 0 && (dir == MoveDir::Left || dir == MoveDir::Right) {
        Some(step(at_most(current, len - 1), len, 1, dir))
    } else {
        None
    }
}

/// The index arrow-key navigation moves the selection to: `selected` is an
/// index into the visible cells (`None`: nothing selected yet). Left and right
/// step by one and never wrap; up and down step a full row, held to the first
/// and last item.
pub fn nav_target(selected: Option<usize>, len: usize, cols: usize, dir: MoveDir) -> (r: Option<
    usize,
>)
    ensures
        index_of(r) == nav_place(index_of(selected), len as int, cols as int, dir),
        r is Some ==> r.unwrap() < len,
{
    if len == 0 {
        return None;
    }
    let cols: usize = if cols == 0 {
        1
    } else {
        cols
    };
    match selected {
        None => Some(0),
        Some(s) => {
            let s: usize = if s > len - 1 {
                len - 1
            } else {
                s
            };
            let to_end: usize = len - 1 - s;
            Some(
                match dir {
                    MoveDir::Left => if s == 0 {
                        0
                    } else {
                        s - 1
                    },
                    MoveDir::Right => if to_end == 0 {
                        s
                    } else {
                        s + 1
                    },
                    MoveDir::Up => if s < cols {
                        0
                    } else {
                        s - cols
                    },
                    MoveDir::Down => if to_end < cols {
                        len - 1
                    } else {
                        s + cols
                    },
                },
            )
        },
    }
}

/// When a detail view is open, left and right step one frame through the set,
/// held at both ends; up and down never page.
pub fn paginate(current: usize, len: usize, dir: MoveDir) -> (r: Option<usize>)
    ensures
        index_of(r) == page_place(current as int, len as int, dir),
        r is Some ==> r.unwrap() < len,
{
    if len == 0 {
        return None;
    }
    let current: usize = if current > len - 1 {
        len - 1
    } else {
        current
    };
    match dir {
        MoveDir::Left => Some(
            if current == 0 {
                0
            } else {
                current - 1
            },
        ),
        MoveDir::Right => Some(
            if current == len - 1 {
                current
            } else {
                current + 1
            },
        ),
        _ => None,
    }
}

/// Navigation always lands on a cell of the grid.
pub proof fn navigation_stays_in_the_grid(selected: int, len: int, cols: int, dir: MoveDir)
    requires
        0 <= selected < len,
        cols >= 1,
    ensures
        0 <= step(selected, len, cols, dir) < len,
{
}

/// A list of rolls with one more put in behind all whose names come no later.
pub open spec fn put_by_name(sorted: Seq<RollModel>, roll: RollModel) -> Seq<RollModel>
    decreases sorted.len(),
{
    if sorted.len() == 0 {
        seq![roll]
    } else if text::text_le(sorted.last().name, roll.name) {
        sorted.push(roll)
    } else {
        put_by_name(sorted.drop_last(), roll).push(sorted.last())
    }
}

/// A list of rolls sorted by name; rolls of one name keep their order.
pub open spec fn sorted_by_name(rolls: Seq<RollModel>) -> Seq<RollModel>
    decreases rolls.len(),
{
    if rolls.len() == 0 {
        Seq::empty()
    } else {
        put_by_name(sorted_by_name(rolls.drop_last()), rolls.last())
    }
}

/// Whether the names of a list of rolls never go back.
pub open spec fn names_ascend(rolls: Seq<RollModel>) -> bool {
    forall|i: int, j: int|
        0 <= i < j < rolls.len() ==> text::text_le(
            (#[trigger] rolls[i]).name,
            (#[trigger] rolls[j]).name,
        )
}

/// Putting a roll into a list in name order keeps the order and adds just that
/// roll.
proof fn put_by_name_keeps_order(sorted: Seq<RollModel>, roll: RollModel)
    requires
        names_ascend(sorted),
    ensures
        names_ascend(put_by_name(sorted, roll)),
        put_by_name(sorted, roll).to_multiset() == sorted.to_multiset().insert(roll),
        put_by_name(sorted, roll).len() == sorted.len() + 1,
        forall|i: int|
            0 <= i < put_by_name(sorted, roll).len() ==> sorted.contains(
                #[trigger] put_by_name(sorted, roll)[i],
            ) || put_by_name(sorted, roll)[i] == roll,
    decreases sorted.len(),
{
    broadcast use vstd::seq_lib::group_to_multiset_ensures;

    let out = put_by_name(sorted, roll);
    if sorted.len() == 0 {
        assert(seq![roll] =~= sorted.push(roll));
    } else if text::text_le(sorted.last().name, roll.name) {
        assert forall|i: int, j: int| 0 <= i < j < out.len() implies text::text_le(
            (#[trigger] out[i]).name,
            (#[trigger] out[j]).name,
        ) by {
            if j == sorted.len() && i < sorted.len() - 1 {
                assert(text::text_le(sorted[i].name, sorted[sorted.len() - 1].name));
                text::text_order_transitive(sorted[i].name, sorted.last().name, roll.name);
            }
        }
        assert forall|i: int| 0 <= i < out.len() implies sorted.contains(#[trigger] out[i])
            || out[i] == roll by {
            if i < sorted.len() {
                assert(out[i] == sorted[i]);
            }
        }
    } else {
        let init = sorted.drop_last();
        assert(names_ascend(init)) by {
            assert forall|i: int, j: int| 0 <= i < j < init.len() implies text::text_le(
                (#[trigger] init[i]).name,
                (#[trigger] init[j]).name,
            ) by {
                assert(text::text_le(sorted[i].name, sorted[j].name));
            }
        }
        put_by_name_keeps_order(init, roll);
        let part = put_by_name(init, roll);
        text::text_order_total(sorted.last().name, roll.name);
        assert forall|i: int, j: int| 0 <= i < j < out.len() implies text::text_le(
            (#[trigger] out[i]).name,
            (#[trigger] out[j]).name,
        ) by {
            if j == out.len() - 1 {
                assert(out[i] == part[i]);
                if init.contains(part[i]) {
                    let k = choose|k: int| 0 <= k < init.len() && init[k] == part[i];
                    assert(text::text_le(sorted[k].name, sorted[sorted.len() - 1].name));
                }
            } else {
                assert(text::text_le(part[i].name, part[j].name));
            }
        }
        assert(sorted =~= init.push(sorted.last()));
        assert forall|i: int| 0 <= i < out.len() implies sorted.contains(#[trigger] out[i])
            || out[i] == roll by {
            if i < part.len() {
                assert(out[i] == part[i]);
                if init.contains(part[i]) {
                    let k = choose|k: int| 0 <= k < init.len() && init[k] == part[i];
                    assert(sorted[k] == out[i]);
                }
            } else {
                assert(out[i] == sorted[sorted.len() - 1]);
            }
        }
        assert(out.to_multiset() =~= sorted.to_multiset().insert(roll));
    }
}

/// Sorting by name gives the same rolls, each as often as before, with names
/// that never go back.
pub proof fn sorting_by_name_sorts(rolls: Seq<RollModel>)
    ensures
        names_ascend(sorted_by_name(rolls)),
        sorted_by_name(rolls).to_multiset() == rolls.to_multiset(),
        sorted_by_name(rolls).len() == rolls.len(),
    decreases rolls.len(),
{
    broadcast use vstd::seq_lib::group_to_multiset_ensures;

    if rolls.len() > 0 {
        sorting_by_name_sorts(rolls.drop_last());
        put_by_name_keeps_order(sorted_by_name(rolls.drop_last()), rolls.last());
        assert(rolls =~= rolls.drop_last().push(rolls.last()));
    }
}

/// Puts a roll into a list in name order, behind all whose names come no later.
fn insert_by_name(sorted: &mut Vec<Roll>, roll: Roll)
    ensures
        roll_models(final(sorted)@) == put_by_name(roll_models(old(sorted)@), roll.model()),
{
    let ghost before = roll_models(sorted@);
    let mut at: usize = sorted.len();
    assert(before.take(at as int) =~= before);
    assert(put_by_name(before.take(at as int), roll.model()) + before.skip(at as int)
        =~= put_by_name(before, roll.model()));
    while at > 0 && !text::at_most(sorted[at - 1].name.as_str(), roll.name.as_str())
        invariant
            at <= sorted@.len(),
            before == roll_models(sorted@),
            put_by_name(before.take(at as int), roll.model()) + before.skip(at as int)
                == put_by_name(before, roll.model()),
        decreases at,
    {
        proof {
            let part = before.take(at as int);
            assert(part.last() == before[at - 1]);
            assert(part.drop_last() =~= before.take(at - 1));
            assert(put_by_name(before.take(at - 1), roll.model()).push(before[at - 1])
                + before.skip(at as int) =~= put_by_name(before.take(at - 1), roll.model())
                + before.skip(at - 1));
        }
        at = at - 1;
    }
    let ghost model = roll.model();
    proof {
        let part = before.take(at as int);
        if at > 0 {
            assert(part.last() == before[at - 1]);
        } else {
            assert(part =~= Seq::<RollModel>::empty());
            assert(part.push(model) =~= seq![model]);
        }
    }
    sorted.insert(at, roll);
    assert(roll_models(sorted@) =~= before.take(at as int).push(model) + before.skip(at as int));
}

/// Sorts rolls by name; rolls of one name keep their order.
pub fn sort_by_name(rolls: Vec<Roll>) -> (r: Vec<Roll>)
    ensures
        roll_models(r@) == sorted_by_name(roll_models(rolls@)),
{
    let ghost all = roll_models(rolls@);
    let mut rest: Vec<Roll> = rolls;
    let mut sorted: Vec<Roll> = Vec::new();
    let ghost mut k: int = 0;
    assert(all.take(0) =~= Seq::<RollModel>::empty());
    assert(roll_models(sorted@) =~= Seq::<RollModel>::empty());
    assert(all.skip(0) =~= all);
    while rest.len() > 0
        invariant
            0 <= k <= all.len(),
            roll_models(rest@) == all.skip(k),
            roll_models(sorted@) == sorted_by_name(all.take(k)),
        decreases rest@.len(),
    {
        let ghost before = rest@;
        let roll: Roll = rest.remove(0);
        proof {
            assert(roll_models(before).len() == all.len() - k);
            assert(roll.model() == roll_models(before)[0]);
            assert(all.take(k + 1).drop_last() =~= all.take(k));
            assert(all.take(k + 1).last() == all[k]);
            assert forall|i: int| 0 <= i < rest@.len() implies roll_models(rest@)[i] == all.skip(
                k + 1,
            )[i] by {
                assert(roll_models(before)[i + 1] == all.skip(k)[i + 1]);
            }
            assert(roll_models(rest@) =~= all.skip(k + 1));
        }
        insert_by_name(&mut sorted, roll);
        proof {
            k = k + 1;
        }
    }
    assert(roll_models(rest@).len() == all.len() - k);
    assert(all.take(k) =~= all);
    sorted
}

/// A text without the white space at its beginning.
pub open spec fn without_leading(s: Seq<char>) -> Seq<char>
    decreases s.len(),
{
    if s.len() > 0 && white_space(s[0]) {
        without_leading(s.drop_first())
    } else {
        s
    }
}

/// A text without the white space at its end.
pub open spec fn without_trailing(s: Seq<char>) -> Seq<char>
    decreases s.len(),
{
    if s.len() > 0 && white_space(s.last()) {
        without_trailing(s.drop_last())
    } else {
        s
    }
}

/// A text without the white space around it.
pub open spec fn trimmed_text(s: Seq<char>) -> Seq<char> {
    without_trailing(without_leading(s))
}

/// Takes the white space around a text away.
pub fn trim(s: &str) -> (r: String)
    ensures
        r@ == trimmed_text(s@),
{
    let chars: Vec<char> = text::chars_of(s);
    let mut from: usize = 0;
    assert(chars@.skip(0) =~= s@);
    while from < chars.len() && is_white_space(chars[from])
        invariant
            from <= chars@.len(),
            without_leading(chars@.skip(from as int)) == without_leading(s@),
        decreases chars@.len() - from,
    {
        assert(chars@.skip(from as int).drop_first() =~= chars@.skip(from + 1));
        from += 1;
    }
    let ghost body = without_leading(s@);
    let mut to: usize = chars.len();
    assert(body =~= chars@.subrange(from as int, to as int));
    while to > from && is_white_space(chars[to - 1])
        invariant
            from <= to <= chars@.len(),
            without_trailing(chars@.subrange(from as int, to as int)) == without_trailing(body),
        decreases to,
    {
        assert(chars@.subrange(from as int, to as int).drop_last() =~= chars@.subrange(
            from as int,
            to - 1,
        ));
        to = to - 1;
    }
    text::text_from(chars.as_slice(), from, to)
}

} // verus!
