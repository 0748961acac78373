//! A game character's profile, read from the page that shows it.

use crate::text::{
    contains_str, contains_text, remove_all, remove_all_str, replace_all, replace_all_str, trim,
    trim_str,
};
use scraper::{Html, Selector};
use vstd::prelude::*;

verus! {

/// What stands for a field that the page does not show.
pub const NOT_AVAILABLE: &'static str = "N/A";

/// Where the page shows the character's name.
pub const SELECTOR_NAME: &'static str =
    "#user-profile > section > div.row.row-normal > div.col-lg-8 > div > h3 > b";

/// Where the page shows the character's job.
pub const SELECTOR_JOB: &'static str =
    "#user-profile > section > div.row.row-normal > div.col-lg-8 > div > div.user-summary > ul > li:nth-child(3)";

/// Where the page shows the character's level.
pub const SELECTOR_CHARACTER_LEVEL: &'static str =
    "#user-profile > section > div.row.row-normal > div.col-lg-8 > div > div.user-summary > ul > li:nth-child(2)";

/// Where the page shows the union level.
pub const SELECTOR_UNION_LEVEL: &'static str =
    "#app > div.card.border-bottom-0 > div > section > div.row.text-center > div:nth-child(3) > section > div > div > span";

/// Where the page shows the dojo score.
pub const SELECTOR_MUREUNG_SCORE: &'static str =
    "#app > div.card.border-bottom-0 > div > section > div.row.text-center > div:nth-child(1) > section > div > div.pt-4.pt-sm-3.pb-4 > div > h1";

/// Where the page shows the day of the dojo score.
pub const SELECTOR_MUREUNG_DATE: &'static str =
    "#app > div.card.border-bottom-0 > div > section > div.row.text-center > div:nth-child(1) > section > footer > div.user-summary-date > span";

/// The words by which a dojo score's day is told from other text.
pub const REFERENCE_DAY: &'static str = "기준일";

/// A character's profile.
#[derive(Debug)]
pub struct MapleUser {
    pub name: String,
    pub job: String,
    pub character_level: String,
    pub union_level: String,
    pub mureung_score: String,
}

/// The mathematical value of a profile.
pub struct Profile {
    pub name: Seq<char>,
    pub job: Seq<char>,
    pub character_level: Seq<char>,
    pub union_level: Seq<char>,
    pub mureung_score: Seq<char>,
}

impl View for MapleUser {
    type V = Profile;

    open spec fn view(&self) -> Profile {
        Profile {
            name: self.name@,
            job: self.job@,
            character_level: self.character_level@,
            union_level: self.union_level@,
            mureung_score: self.mureung_score@,
        }
    }
}

/// The first piece of text inside the elements that `selector` selects in
/// the document `html`, as the `scraper` crate finds it; `None` where
/// `selector` is no selector or the elements that it selects hold no text.
pub uninterp spec fn first_selected_text(html: Seq<char>, selector: Seq<char>) -> Option<
    Seq<char>,
>;

/// The value of an optional string.
pub open spec fn found_of(s: Option<String>) -> Option<Seq<char>> {
    match s {
        Some(s) => Some(s@),
        None => None,
    }
}

/// A piece of text from a page, tidied: line feeds and tabs taken out,
/// then trimmed.
pub open spec fn tidied(text: Seq<char>) -> Seq<char> {
    trim(remove_all(remove_all(text, "\n"@), "\t"@))
}

/// What a field reads: the tidied text where the page shows one, else the
/// mark for a field that is not shown.
pub open spec fn field_text(found: Option<Seq<char>>) -> Seq<char> {
    match found {
        Some(text) => tidied(text),
        None => NOT_AVAILABLE@,
    }
}

/// The field that `selector` selects in the document `html`.
pub open spec fn selected_field(html: Seq<char>, selector: Seq<char>) -> Seq<char> {
    field_text(first_selected_text(html, selector))
}

/// How the dojo score reads: the score without spaces and, in brackets, its
/// day with double spaces made single; not shown where the day does not
/// hold the words for a reference day.
pub open spec fn mureung_text(score: Seq<char>, date: Seq<char>) -> Seq<char> {
    let day = replace_all(date, "  "@, " "@);
    if contains_text(day, REFERENCE_DAY@) {
        remove_all(score, " "@) + " ("@ + day + ")"@
    } else {
        NOT_AVAILABLE@
    }
}

/// The profile that the six fields of a page make.
pub open spec fn profile_of(
    name: Seq<char>,
    job: Seq<char>,
    character_level: Seq<char>,
    union_level: Seq<char>,
    mureung_score: Seq<char>,
    mureung_date: Seq<char>,
) -> Profile {
    Profile {
        name,
        job,
        character_level,
        union_level,
        mureung_score: mureung_text(mureung_score, mureung_date),
    }
}

/// The profile that the document `html` shows.
pub open spec fn profile_in(html: Seq<char>) -> Profile {
    profile_of(
        selected_field(html, SELECTOR_NAME@),
        selected_field(html, SELECTOR_JOB@),
        selected_field(html, SELECTOR_CHARACTER_LEVEL@),
        selected_field(html, SELECTOR_UNION_LEVEL@),
        selected_field(html, SELECTOR_MUREUNG_SCORE@),
        selected_field(html, SELECTOR_MUREUNG_DATE@),
    )
}

/// How a profile reads.
pub open spec fn profile_display(p: Profile) -> Seq<char> {
    "캐릭터명: "@ + p.name + "\n직업: "@ + p.job + "\n캐릭터 레벨: "@ + p.character_level
        + "\n유니온 레벨: "@ + p.union_level + "\n무릉도장: "@ + p.mureung_score
}

/// The first piece of text inside the elements that `selector` selects in
/// the document `html`.
///
/// Trusted: this calls `Selector::parse`, `Html::parse_document`,
/// `Html::select` and `ElementRef::text` of the `scraper` crate. The
/// contract gives their result a name and claims only that it depends on
/// the two texts alone.
#[verifier::external_body]
fn select_first_text(html: &str, selector: &str) -> (r: Option<String>)
    ensures
        found_of(r) == first_selected_text(html@, selector@),
{
    let selector = Selector::parse(selector).ok()?;
    let document = Html::parse_document(html);
    let text = document.select(&selector).flat_map(|element| element.text()).next()?;
    Some(text.to_string())
}

/// What a field reads, given what the page shows for it.
pub fn tidy_field(found: Option<String>) -> (r: String)
    ensures
        r@ == field_text(found_of(found)),
{
    match found {
        Some(text) => {
            let no_feeds = remove_all_str(text.as_str(), "\n");
            let no_tabs = remove_all_str(no_feeds.as_str(), "\t");
            trim_str(no_tabs.as_str())
        },
        None => NOT_AVAILABLE.to_owned(),
    }
}

/// The field that `selector_string` selects in the document `document`.
pub fn from_selector(document: &str, selector_string: &str) -> (r: String)
    ensures
        r@ == selected_field(document@, selector_string@),
{
    tidy_field(select_first_text(document, selector_string))
}

impl MapleUser {
    /// The profile that six fields of a page make.
    pub fn from_fields(
        name: String,
        job: String,
        character_level: String,
        union_level: String,
        mureung_score: String,
        mureung_date: String,
    ) -> (r: Self)
        ensures
            r@ == profile_of(
                name@,
                job@,
                character_level@,
                union_level@,
                mureung_score@,
                mureung_date@,
            ),
    {
        let score = remove_all_str(mureung_score.as_str(), " ");
        let date = replace_all_str(mureung_date.as_str(), "  ", " ");
        let mureung_score = if contains_str(date.as_str(), REFERENCE_DAY) {
            let mut s = score;
            s.append(" (");
            s.append(date.as_str());
            s.append(")");
            s
        } else {
            NOT_AVAILABLE.to_owned()
        };
        MapleUser { name, job, character_level, union_level, mureung_score }
    }

    /// The profile that the document `document` shows.
    pub fn from(document: &str) -> (r: Self)
        ensures
            r@ == profile_in(document@),
    {
        let name = from_selector(document, SELECTOR_NAME);
        let job = from_selector(document, SELECTOR_JOB);
        let character_level = from_selector(document, SELECTOR_CHARACTER_LEVEL);
        let union_level = from_selector(document, SELECTOR_UNION_LEVEL);
        let mureung_score = from_selector(document, SELECTOR_MUREUNG_SCORE);
        let mureung_date = from_selector(document, SELECTOR_MUREUNG_DATE);
        Self::from_fields(name, job, character_level, union_level, mureung_score, mureung_date)
    }

    /// How this profile reads.
    pub fn to_display_string(&self) -> (r: String)
        ensures
            r@ == profile_display(self@),
    {
        let mut r = "캐릭터명: ".to_owned();
        r.append(self.name.as_str());
        r.append("\n직업: ");
        r.append(self.job.as_str());
        r.append("\n캐릭터 레벨: ");
        r.append(self.character_level.as_str());
        r.append("\n유니온 레벨: ");
        r.append(self.union_level.as_str());
        r.append("\n무릉도장: ");
        r.append(self.mureung_score.as_str());
        r
    }
}

/// The address of the page that shows the character `name`.
pub open spec fn profile_url(name: Seq<char>) -> Seq<char> {
    "https://maple.gg/u/"@ + name
}

/// The address of the page that shows the character `name`.
pub fn get_maple_user_url(name: &str) -> (r: String)
    ensures
        r@ == profile_url(name@),
{
    let mut r = "https://maple.gg/u/".to_owned();
    r.append(name);
    r
}

} // verus!
