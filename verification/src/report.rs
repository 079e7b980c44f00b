use owo_colors::OwoColorize;
use vstd::prelude::*;
use vstd::string::*;

use crate::mode::report_once::decimal;
use crate::time::Timestamp;

verus! {

/// A point given by the bit patterns of its `f64` coordinates: `x` is the
/// longitude and `y` the latitude, in degrees.
#[derive(Clone, Copy, Debug, PartialEq, Eq, Structural)]
pub struct Coordinate {
    pub x: u64,
    pub y: u64,
}

/// Where a device is, in the most telling terms available.
#[derive(Debug)]
pub enum ReportPosition {
    /// Relative to the nearest landmark: `distance` is the bit pattern of the
    /// distance in meters (rounded to whole meters) and `bearing` that of the
    /// bearing from the landmark to the device, in degrees.
    RelativeTo { distance: u64, bearing: u64, name: String },
    /// Inside the named geofences.
    InGeofences(Vec<String>),
    /// At a bare coordinate.
    BarePosition(Coordinate),
}

/// The mathematical value of a [`ReportPosition`].
pub enum ReportPositionView {
    RelativeTo { distance: u64, bearing: u64, name: Seq<char> },
    InGeofences(Seq<Seq<char>>),
    BarePosition(Coordinate),
}

/// The texts of a sequence of strings.
pub open spec fn texts(v: Seq<String>) -> Seq<Seq<char>> {
    v.map_values(|s: String| s@)
}

impl View for ReportPosition {
    type V = ReportPositionView;

    open spec fn view(&self) -> ReportPositionView {
        match self {
            ReportPosition::RelativeTo { distance, bearing, name } => ReportPositionView::RelativeTo {
                distance: *distance,
                bearing: *bearing,
                name: name@,
            },
            ReportPosition::InGeofences(fences) => ReportPositionView::InGeofences(texts(fences@)),
            ReportPosition::BarePosition(point) => ReportPositionView::BarePosition(*point),
        }
    }
}

/// The geofences a position lies in: none unless it is given by geofences.
pub open spec fn fences_of(p: ReportPositionView) -> Seq<Seq<char>> {
    match p {
        ReportPositionView::InGeofences(fences) => fences,
        _ => Seq::empty(),
    }
}

fn clone_strings(v: &Vec<String>) -> (r: Vec<String>)
    ensures
        texts(r@) == texts(v@),
{
    let mut r: Vec<String> = Vec::new();
    let mut i: usize = 0;
    while i < v.len()
        invariant
            i <= v@.len(),
            r@.len() == i,
            forall|k: int| 0 <= k < i ==> #[trigger] r@[k]@ == v@[k]@,
        decreases v@.len() - i,
    {
        r.push(v[i].clone());
        i += 1;
    }
    assert(texts(r@) =~= texts(v@));
    r
}

impl Clone for ReportPosition {
    fn clone(&self) -> (r: Self)
        ensures
            r@ == self@,
    {
        match self {
            ReportPosition::RelativeTo { distance, bearing, name } => ReportPosition::RelativeTo {
                distance: *distance,
                bearing: *bearing,
                name: name.clone(),
            },
            ReportPosition::InGeofences(fences) => ReportPosition::InGeofences(clone_strings(fences)),
            ReportPosition::BarePosition(point) => ReportPosition::BarePosition(*point),
        }
    }
}

impl ReportPosition {
    /// The geofences the position lies in (none unless it is given by
    /// geofences).
    pub fn geofences(&self) -> (r: &[String])
        ensures
            texts(r@) == fences_of(self@),
    {
        match self {
            ReportPosition::InGeofences(fences) => fences.as_slice(),
            _ => {
                let empty: &[String] = &[];
                assert(texts(empty@) =~= Seq::<Seq<char>>::empty());
                empty
            },
        }
    }
}

/// What is known of a device at one moment: its displayed name, where it
/// is, whether it reports on time (when a timeout is configured), how old
/// the fix is, and when the next fix is expected (when an update interval
/// is configured).
#[derive(Debug)]
pub struct Report {
    pub name: String,
    pub position: ReportPosition,
    pub in_timeout: Option<bool>,
    pub seconds_ago: u32,
    pub next_update_expected: Option<Timestamp>,
}

/// The mathematical value of a [`Report`].
pub struct ReportView {
    pub name: Seq<char>,
    pub position: ReportPositionView,
    pub in_timeout: Option<bool>,
    pub seconds_ago: u32,
    pub next_update_expected: Option<Timestamp>,
}

impl View for Report {
    type V = ReportView;

    open spec fn view(&self) -> ReportView {
        ReportView {
            name: self.name@,
            position: self.position@,
            in_timeout: self.in_timeout,
            seconds_ago: self.seconds_ago,
            next_update_expected: self.next_update_expected,
        }
    }
}

impl Clone for Report {
    fn clone(&self) -> (r: Self)
        ensures
            r@ == self@,
    {
        Report {
            name: self.name.clone(),
            position: self.position.clone(),
            in_timeout: self.in_timeout,
            seconds_ago: self.seconds_ago,
            next_update_expected: self.next_update_expected,
        }
    }
}

impl Report {
    /// A report from its parts.
    pub fn new(
        name: String,
        position: ReportPosition,
        in_timeout: Option<bool>,
        seconds_ago: u32,
        predicted_update: Option<Timestamp>,
    ) -> (r: Self)
        ensures
            r.name == name,
            r.position == position,
            r.in_timeout == in_timeout,
            r.seconds_ago == seconds_ago,
            r.next_update_expected == predicted_update,
    {
        Self { next_update_expected: predicted_update, name, position, in_timeout, seconds_ago }
    }
}

/// The texts joined with commas.
pub open spec fn comma_joined(items: Seq<Seq<char>>) -> Seq<char>
    decreases items.len(),
{
    if items.len() == 0 {
        Seq::empty()
    } else if items.len() == 1 {
        items[0]
    } else {
        comma_joined(items.drop_last()) + ","@ + items.last()
    }
}

/// The text of a position. For a position relative to a landmark, `first`
/// is the written distance and `second` the compass direction; for a bare
/// coordinate, `first` and `second` are the written longitude and latitude.
pub open spec fn position_text(p: ReportPositionView, first: Seq<char>, second: Seq<char>) -> Seq<char> {
    match p {
        ReportPositionView::RelativeTo { name, .. } => first + " "@ + second + " of "@ + name,
        ReportPositionView::InGeofences(fences) => comma_joined(fences),
        ReportPositionView::BarePosition(_) => first + ","@ + second,
    }
}

/// The words that link a device name to its position.
pub open spec fn connective(p: ReportPositionView) -> Seq<char> {
    match p {
        ReportPositionView::RelativeTo { .. } => " was "@,
        ReportPositionView::InGeofences(_) => " was in "@,
        ReportPositionView::BarePosition(_) => " was at "@,
    }
}

/// The terminal escape that starts green text.
pub open spec fn green_start() -> Seq<char> {
    "\x1b[32m"@
}

/// The terminal escape that starts red text.
pub open spec fn red_start() -> Seq<char> {
    "\x1b[31m"@
}

/// The terminal escape that restores the default text color.
pub open spec fn color_end() -> Seq<char> {
    "\x1b[39m"@
}

/// The age part of a report text: the written duration, green when the
/// device reports on time, red when it is late, plain when no timeout is
/// configured.
pub open spec fn age_suffix_text(duration: Seq<char>, in_timeout: Option<bool>) -> Seq<char> {
    match in_timeout {
        None => " "@ + duration + " ago"@,
        Some(true) => " "@ + green_start() + duration + color_end() + " ago"@,
        Some(false) => " "@ + red_start() + duration + color_end() + " ago"@,
    }
}

/// The units of duration_human's alternate form, longest first, in seconds:
/// century, year (365.25 days), month (a twelfth of a year), week, day,
/// hour, minute and second.
pub open spec fn duration_unit_seconds(i: int) -> nat {
    if i == 0 {
        3_155_760_000
    } else if i == 1 {
        31_557_600
    } else if i == 2 {
        2_629_800
    } else if i == 3 {
        604_800
    } else if i == 4 {
        86_400
    } else if i == 5 {
        3_600
    } else if i == 6 {
        60
    } else {
        1
    }
}

/// The name written after a count of a unit; the first units have a plural
/// form, the others are abbreviated.
pub open spec fn duration_unit_name(i: int, plural: bool) -> Seq<char> {
    if i == 0 {
        if plural { " centuries"@ } else { " century"@ }
    } else if i == 1 {
        if plural { " years"@ } else { " year"@ }
    } else if i == 2 {
        if plural { " months"@ } else { " month"@ }
    } else if i == 3 {
        if plural { " weeks"@ } else { " week"@ }
    } else if i == 4 {
        if plural { " days"@ } else { " day"@ }
    } else if i == 5 {
        "h"@
    } else if i == 6 {
        "min"@
    } else {
        "s"@
    }
}

/// The written parts of a number of seconds from unit `i` on: the count of
/// each unit taken greedily, the units with a count of zero left out.
pub open spec fn duration_parts(seconds: nat, i: nat) -> Seq<Seq<char>>
    decreases 8 - i,
{
    if i >= 8 {
        Seq::empty()
    } else {
        let count = seconds / duration_unit_seconds(i as int);
        let rest = duration_parts(seconds % duration_unit_seconds(i as int), i + 1);
        if count > 0 {
            seq![decimal(count) + duration_unit_name(i as int, count > 1)] + rest
        } else {
            rest
        }
    }
}

/// The texts joined with single spaces.
pub open spec fn space_joined(items: Seq<Seq<char>>) -> Seq<char>
    decreases items.len(),
{
    if items.len() == 0 {
        Seq::empty()
    } else if items.len() == 1 {
        items[0]
    } else {
        space_joined(items.drop_last()) + " "@ + items.last()
    }
}

/// How duration_human writes a whole number of seconds in its alternate
/// form (`{:#}`), such as "1 week 1h 30s": the parts joined with spaces.
pub open spec fn human_duration(seconds: u32) -> Seq<char> {
    space_joined(duration_parts(seconds as nat, 0))
}

/// Writes a number of seconds with duration_human's `DurationHuman` in its
/// alternate form, which splits the time greedily into the units above and
/// writes each non-zero count with its unit name, separated by spaces.
#[verifier::external_body]
fn human_duration_text(seconds: u32) -> (r: String)
    ensures
        r@ == human_duration(seconds),
{
    format!("{:#}", duration_human::DurationHuman::from(std::time::Duration::from_secs(u64::from(seconds))))
}

/// Colors a text green with owo_colors (`fg::<Green>`), which writes the
/// ANSI escape for green, the text, and the escape for the default color.
#[verifier::external_body]
fn paint_green(text: &str) -> (r: String)
    ensures
        r@ == green_start() + text@ + color_end(),
{
    format!("{}", text.fg::<owo_colors::colors::Green>())
}

/// Colors a text red with owo_colors (`fg::<Red>`), which writes the ANSI
/// escape for red, the text, and the escape for the default color.
#[verifier::external_body]
fn paint_red(text: &str) -> (r: String)
    ensures
        r@ == red_start() + text@ + color_end(),
{
    format!("{}", text.fg::<owo_colors::colors::Red>())
}

/// The age part of a report text from the written duration.
pub fn age_suffix(duration: &str, in_timeout: Option<bool>) -> (r: String)
    ensures
        r@ == age_suffix_text(duration@, in_timeout),
{
    let shown = match in_timeout {
        None => String::from_str(duration),
        Some(true) => paint_green(duration),
        Some(false) => paint_red(duration),
    };
    let r = String::from_str(" ").concat(shown.as_str()).concat(" ago");
    proof {
        match in_timeout {
            None => assert(r@ =~= age_suffix_text(duration@, in_timeout)),
            Some(true) => assert(r@ =~= age_suffix_text(duration@, in_timeout)),
            Some(false) => assert(r@ =~= age_suffix_text(duration@, in_timeout)),
        }
    }
    r
}

/// The age part of a report text for a fix taken some seconds ago.
pub fn age_text(seconds_ago: u32, in_timeout: Option<bool>) -> (r: String)
    ensures
        r@ == age_suffix_text(human_duration(seconds_ago), in_timeout),
{
    let duration = human_duration_text(seconds_ago);
    age_suffix(duration.as_str(), in_timeout)
}

/// The texts joined with commas.
pub fn join_with_commas(items: &[String]) -> (r: String)
    ensures
        r@ == comma_joined(texts(items@)),
{
    let ghost t = texts(items@);
    let mut r = String::new();
    let mut i: usize = 0;
    while i < items.len()
        invariant
            i <= items@.len(),
            t == texts(items@),
            r@ == comma_joined(t.take(i as int)),
        decreases items@.len() - i,
    {
        assert(t.take(i + 1).drop_last() =~= t.take(i as int));
        assert(t.take(i + 1).last() == items@[i as int]@);
        if i == 0 {
            r = String::from_str(items[i].as_str());
            assert(t.take(1)[0] == items@[0]@);
        } else {
            r = r.concat(",").concat(items[i].as_str());
        }
        i += 1;
    }
    assert(t.take(items@.len() as int) =~= t);
    r
}

impl ReportPosition {
    /// The text of the position. For a position relative to a landmark,
    /// `first` is the written distance and `second` the compass direction;
    /// for a bare coordinate, `first` and `second` are the written longitude
    /// and latitude; geofences are listed by name and need neither.
    pub fn describe(&self, first: &str, second: &str) -> (r: String)
        ensures
            r@ == position_text(self@, first@, second@),
    {
        match self {
            ReportPosition::RelativeTo { name, .. } => {
                String::from_str(first).concat(" ").concat(second).concat(" of ").concat(name.as_str())
            },
            ReportPosition::InGeofences(fences) => join_with_commas(fences.as_slice()),
            ReportPosition::BarePosition(_) => String::from_str(first).concat(",").concat(second),
        }
    }
}

/// The text of a report, given the text of its position and its age part.
pub open spec fn report_text(r: ReportView, position: Seq<char>, age: Seq<char>) -> Seq<char> {
    r.name + connective(r.position) + position + age
}

impl Report {
    /// The text of the report given the text of its position and its age
    /// part: "<name> was <position><age>", with "was in" for geofences and
    /// "was at" for a bare coordinate.
    pub fn describe_with_age(&self, position: &str, age: &str) -> (r: String)
        ensures
            r@ == report_text(self@, position@, age@),
    {
        let connective = match &self.position {
            ReportPosition::RelativeTo { .. } => " was ",
            ReportPosition::InGeofences(_) => " was in ",
            ReportPosition::BarePosition(_) => " was at ",
        };
        String::from_str(self.name.as_str()).concat(connective).concat(position).concat(age)
    }

    /// The text of the report given the text of its position, such as
    /// "Device was in Home 5min ago".
    pub fn describe(&self, position: &str) -> (r: String)
        ensures
            r@ == report_text(self@, position@, age_suffix_text(human_duration(self.seconds_ago), self.in_timeout)),
    {
        let age = age_text(self.seconds_ago, self.in_timeout);
        self.describe_with_age(position, age.as_str())
    }
}

} // verus!
