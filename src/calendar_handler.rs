//! Checks on the data of a calendar (not of its events).

use vstd::prelude::*;
use crate::text::{
    whitespace_char, is_blank, alphanumeric_char, is_alphanumeric, lowercase, lowercase_of, trim, trimmed,
    push_char, text_eq, append_number, number_text,
};

verus! {

/// Why a calendar operation failed.
#[derive(Debug)]
pub enum CalendarError {
    NotFound(String),
    ValidationError(String),
    ConfigError(String),
    DuplicateId(String),
}

impl CalendarError {
    /// The text shown for this error.
    pub fn message(&self) -> (r: String)
        ensures
            r@ == match self {
                CalendarError::NotFound(id) => "Calendar not found: "@ + id@,
                CalendarError::ValidationError(m) => "Invalid calendar: "@ + m@,
                CalendarError::ConfigError(m) => "Config error: "@ + m@,
                CalendarError::DuplicateId(id) => "Calendar ID already exists: "@ + id@,
            },
    {
        match self {
            CalendarError::NotFound(id) => String::from_str("Calendar not found: ").concat(id.as_str()),
            CalendarError::ValidationError(m) => String::from_str("Invalid calendar: ").concat(m.as_str()),
            CalendarError::ConfigError(m) => String::from_str("Config error: ").concat(m.as_str()),
            CalendarError::DuplicateId(id) => String::from_str("Calendar ID already exists: ").concat(id.as_str()),
        }
    }
}

/// Data of a calendar to create.
#[derive(Debug)]
pub struct NewCalendarData {
    pub name: String,
    pub color: String,
}

/// Changes to a calendar; absent fields stay as they are.
#[derive(Debug)]
pub struct UpdateCalendarData {
    pub name: Option<String>,
    pub color: Option<String>,
    pub enabled: Option<bool>,
}

/// Color given to a new calendar.
pub open spec fn default_color_text() -> Seq<char> {
    "#3B82F6"@
}

/// The text has no character but white space.
pub open spec fn blank(s: Seq<char>) -> bool {
    forall|i: int| 0 <= i < s.len() ==> whitespace_char(#[trigger] s[i])
}

/// Operations on calendars.
pub struct CalendarHandler;

impl CalendarHandler {
    /// Color of a new calendar.
    pub fn default_color() -> (r: String)
        ensures
            r@ == default_color_text(),
    {
        String::from_str("#3B82F6")
    }

    /// A calendar needs a name that is not blank and a color.
    pub fn validate(data: &NewCalendarData) -> (r: Result<(), CalendarError>)
        ensures
            r is Ok <==> (!blank(data.name@) && data.color@.len() > 0),
            r matches Err(e) ==> e is ValidationError,
    {
        if is_blank(data.name.as_str()) {
            return Err(CalendarError::ValidationError(String::from_str("Calendar name is required")));
        }
        if data.color.as_str().unicode_len() == 0 {
            return Err(CalendarError::ValidationError(String::from_str("Calendar color is required")));
        }
        Ok(())
    }
}

/// What the calendar list knows of one calendar.
#[derive(Debug)]
pub struct CalendarInfo {
    pub id: String,
    pub name: String,
    /// Color as hex text.
    pub color: String,
    pub enabled: bool,
}

pub ghost struct CalendarInfoView {
    pub id: Seq<char>,
    pub name: Seq<char>,
    pub color: Seq<char>,
    pub enabled: bool,
}

impl View for CalendarInfo {
    type V = CalendarInfoView;

    open spec fn view(&self) -> CalendarInfoView {
        CalendarInfoView { id: self.id@, name: self.name@, color: self.color@, enabled: self.enabled }
    }
}

pub open spec fn calendars_view(v: Seq<CalendarInfo>) -> Seq<CalendarInfoView> {
    v.map_values(|c: CalendarInfo| c@)
}

/// Position of the first calendar from `i` on whose id is `id`, or -1.
pub open spec fn find_from(cals: Seq<CalendarInfoView>, id: Seq<char>, i: int) -> int
    decreases cals.len() - i,
{
    if i < 0 || i >= cals.len() {
        -1
    } else if cals[i].id == id {
        i
    } else {
        find_from(cals, id, i + 1)
    }
}

pub open spec fn find_calendar(cals: Seq<CalendarInfoView>, id: Seq<char>) -> int {
    find_from(cals, id, 0)
}

/// Some calendar has the id `id`.
pub open spec fn id_taken(cals: Seq<CalendarInfoView>, id: Seq<char>) -> bool {
    exists|i: int| 0 <= i < cals.len() && #[trigger] cals[i].id == id
}

/// The characters of a name kept in an id: letters and digits, with spaces
/// turned into dashes.
pub open spec fn id_chars(s: Seq<char>) -> Seq<char>
    decreases s.len(),
{
    if s.len() == 0 {
        Seq::empty()
    } else {
        let c = s.last();
        id_chars(s.drop_last()) + if c == ' ' {
            seq!['-']
        } else if alphanumeric_char(c) {
            seq![c]
        } else {
            Seq::empty()
        }
    }
}

/// The id a calendar named `name` is given when it is free.
pub open spec fn id_base(name: Seq<char>) -> Seq<char> {
    id_chars(lowercase_of(trimmed(name)))
}

/// The `k`-th id tried for a base: the base itself, then `base-1`, `base-2`, ...
pub open spec fn id_candidate(base: Seq<char>, k: nat) -> Seq<char> {
    if k == 0 {
        base
    } else {
        base + seq!['-'] + number_text(k)
    }
}

fn find(calendars: &Vec<CalendarInfo>, id: &str) -> (r: Option<usize>)
    ensures
        match r {
            Some(i) => i as int == find_calendar(calendars_view(calendars@), id@) && i < calendars@.len(),
            None => find_calendar(calendars_view(calendars@), id@) == -1,
        },
        r is None <==> !id_taken(calendars_view(calendars@), id@),
{
    let ghost cv = calendars_view(calendars@);
    let mut i: usize = 0;
    while i < calendars.len()
        invariant
            i <= calendars.len(),
            cv == calendars_view(calendars@),
            find_calendar(cv, id@) == find_from(cv, id@, i as int),
            forall|j: int| 0 <= j < i ==> cv[j].id != id@,
        decreases calendars.len() - i,
    {
        if text_eq(calendars[i].id.as_str(), id) {
            proof {
                assert(id_taken(cv, id@)) by {
                    assert(cv[i as int].id == id@);
                }
            }
            return Some(i);
        }
        i = i + 1;
    }
    proof {
        assert forall|j: int| 0 <= j < cv.len() implies #[trigger] cv[j].id != id@ by {}
    }
    None
}

fn name_to_id(name: &str) -> (r: String)
    ensures
        r@ == id_base(name@),
{
    let lowered = lowercase(trim(name));
    let s = lowered.as_str();
    let n = s.unicode_len();
    let mut r = String::new();
    let mut i: usize = 0;
    proof {
        assert(s@.subrange(0, 0) =~= Seq::<char>::empty());
    }
    while i < n
        invariant
            i <= n,
            n == s@.len(),
            r@ == id_chars(s@.subrange(0, i as int)),
        decreases n - i,
    {
        let c = s.get_char(i);
        proof {
            assert(s@.subrange(0, i + 1).drop_last() =~= s@.subrange(0, i as int));
        }
        if c == ' ' {
            push_char(&mut r, '-');
        } else if is_alphanumeric(c) {
            push_char(&mut r, c);
        }
        proof {
            assert(r@ =~= id_chars(s@.subrange(0, i + 1)));
        }
        i = i + 1;
    }
    proof {
        assert(s@.subrange(0, n as int) =~= s@);
    }
    r
}

impl CalendarHandler {
    /// An id for a new calendar named `name`: its letters and digits in lower
    /// case with dashes for spaces, followed by `-1`, `-2`, ... until it is
    /// not the id of one of `calendars`.
    pub fn generate_id(name: &str, calendars: &Vec<CalendarInfo>) -> (r: String)
        requires
            calendars@.len() < u32::MAX,
        ensures
            exists|k: nat|
                k <= calendars@.len() + 1 && r@ == id_candidate(id_base(name@), k) && (forall|j: nat|
                    j < k ==> id_taken(calendars_view(calendars@), #[trigger] id_candidate(id_base(name@), j)))
                    && (k <= calendars@.len() ==> !id_taken(calendars_view(calendars@), r@)),
    {
        let base = name_to_id(name);
        let mut candidate = base.clone();
        let mut counter: u32 = 0;
        let n = calendars.len();
        while counter <= n as u32 && find(calendars, candidate.as_str()).is_some()
            invariant
                counter <= n + 1,
                n == calendars@.len(),
                n < u32::MAX,
                candidate@ == id_candidate(base@, counter as nat),
                base@ == id_base(name@),
                forall|j: nat| j < counter ==> id_taken(calendars_view(calendars@), #[trigger] id_candidate(base@, j)),
            decreases n + 1 - counter,
        {
            proof {
                assert(id_taken(calendars_view(calendars@), id_candidate(base@, counter as nat)));
            }
            counter = counter + 1;
            let mut next = base.clone();
            push_char(&mut next, '-');
            append_number(&mut next, counter);
            candidate = next;
        }
        proof {
            if counter == 0 {
                assert(forall|j: nat| j < 0nat ==> id_taken(calendars_view(calendars@), #[trigger] id_candidate(base@, j)));
            }
        }
        candidate
    }

    /// Adds an enabled calendar made of `data`; returns its new id.
    pub fn create(calendars: &mut Vec<CalendarInfo>, data: NewCalendarData) -> (r: Result<String, CalendarError>)
        requires
            old(calendars)@.len() < u32::MAX,
        ensures
            r is Ok <==> (!blank(data.name@) && data.color@.len() > 0),
            r matches Err(e) ==> e is ValidationError && calendars_view(final(calendars)@) == calendars_view(old(calendars)@),
            r matches Ok(id) ==> calendars_view(final(calendars)@) == calendars_view(old(calendars)@).push(
                CalendarInfoView { id: id@, name: data.name@, color: data.color@, enabled: true },
            ),
    {
        match Self::validate(&data) {
            Err(e) => Err(e),
            Ok(()) => {
                let id = Self::generate_id(data.name.as_str(), calendars);
                let ghost before = calendars_view(calendars@);
                calendars.push(CalendarInfo { id: id.clone(), name: data.name, color: data.color, enabled: true });
                proof {
                    assert(calendars_view(calendars@) =~= before.push(
                        CalendarInfoView { id: id@, name: data.name@, color: data.color@, enabled: true },
                    ));
                }
                Ok(id)
            },
        }
    }

    /// Applies the present fields of `data` to calendar `calendar_id`. A blank
    /// new name is refused and changes nothing.
    pub fn update(calendars: &mut Vec<CalendarInfo>, calendar_id: &str, data: UpdateCalendarData) -> (r: Result<(), CalendarError>)
        ensures
            ({
                let before = calendars_view(old(calendars)@);
                let i = find_calendar(before, calendar_id@);
                &&& (i == -1 ==> (r matches Err(e) && e is NotFound))
                &&& ((i != -1 && (data.name matches Some(n) && blank(n@))) ==> (r matches Err(e) && e is ValidationError))
                &&& (r is Err ==> calendars_view(final(calendars)@) == before)
                &&& (r is Ok ==> i != -1 && calendars_view(final(calendars)@) == before.update(i, CalendarInfoView {
                    id: before[i].id,
                    name: match data.name { Some(n) => n@, None => before[i].name },
                    color: match data.color { Some(c) => c@, None => before[i].color },
                    enabled: match data.enabled { Some(e) => e, None => before[i].enabled },
                }))
                &&& ((i != -1 && !(data.name matches Some(n) && blank(n@))) ==> r is Ok)
            }),
    {
        let ghost before = calendars_view(calendars@);
        let i = match find(calendars, calendar_id) {
            Some(i) => i,
            None => {
                return Err(CalendarError::NotFound(String::from_str(calendar_id)));
            },
        };
        if let Some(n) = &data.name {
            if is_blank(n.as_str()) {
                return Err(CalendarError::ValidationError(String::from_str("Calendar name cannot be empty")));
            }
        }
        let mut cal = calendars.remove(i);
        if let Some(n) = data.name {
            cal.name = n;
        }
        if let Some(c) = data.color {
            cal.color = c;
        }
        if let Some(e) = data.enabled {
            cal.enabled = e;
        }
        calendars.insert(i, cal);
        proof {
            assert(calendars_view(calendars@) =~= before.update(i as int, cal@));
        }
        Ok(())
    }

    /// Flips whether calendar `calendar_id` is shown; returns the new state.
    pub fn toggle_enabled(calendars: &mut Vec<CalendarInfo>, calendar_id: &str) -> (r: Result<bool, CalendarError>)
        ensures
            ({
                let before = calendars_view(old(calendars)@);
                let i = find_calendar(before, calendar_id@);
                &&& (i == -1 ==> (r matches Err(e) && e is NotFound) && calendars_view(final(calendars)@) == before)
                &&& (i != -1 ==> r == Ok::<bool, CalendarError>(!before[i].enabled) && calendars_view(
                    final(calendars)@,
                ) == before.update(i, CalendarInfoView { enabled: !before[i].enabled, ..before[i] }))
            }),
    {
        let ghost before = calendars_view(calendars@);
        let i = match find(calendars, calendar_id) {
            Some(i) => i,
            None => {
                return Err(CalendarError::NotFound(String::from_str(calendar_id)));
            },
        };
        let mut cal = calendars.remove(i);
        let state = !cal.enabled;
        cal.enabled = state;
        calendars.insert(i, cal);
        proof {
            assert(calendars_view(calendars@) =~= before.update(i as int, cal@));
        }
        Ok(state)
    }

    /// Gives calendar `calendar_id` the color `color`.
    pub fn change_color(calendars: &mut Vec<CalendarInfo>, calendar_id: &str, color: String) -> (r: Result<(), CalendarError>)
        ensures
            ({
                let before = calendars_view(old(calendars)@);
                let i = find_calendar(before, calendar_id@);
                &&& (i == -1 ==> (r matches Err(e) && e is NotFound) && calendars_view(final(calendars)@) == before)
                &&& (i != -1 ==> r is Ok && calendars_view(final(calendars)@) == before.update(
                    i,
                    CalendarInfoView { color: color@, ..before[i] },
                ))
            }),
    {
        Self::update(calendars, calendar_id, UpdateCalendarData { name: None, color: Some(color), enabled: None })
    }

    /// Removes calendar `calendar_id` from the list (its stored events are
    /// removed by the store).
    pub fn delete(calendars: &mut Vec<CalendarInfo>, calendar_id: &str) -> (r: Result<(), CalendarError>)
        ensures
            ({
                let before = calendars_view(old(calendars)@);
                let i = find_calendar(before, calendar_id@);
                &&& (i == -1 ==> (r matches Err(e) && e is NotFound) && calendars_view(final(calendars)@) == before)
                &&& (i != -1 ==> r is Ok && calendars_view(final(calendars)@) == before.remove(i))
            }),
    {
        let ghost before = calendars_view(calendars@);
        match find(calendars, calendar_id) {
            Some(i) => {
                calendars.remove(i);
                proof {
                    assert(calendars_view(calendars@) =~= before.remove(i as int));
                }
                Ok(())
            },
            None => Err(CalendarError::NotFound(String::from_str(calendar_id))),
        }
    }

    /// Name, color and shown state of calendar `calendar_id`.
    pub fn get_info(calendars: &Vec<CalendarInfo>, calendar_id: &str) -> (r: Result<(String, String, bool), CalendarError>)
        ensures
            ({
                let cv = calendars_view(calendars@);
                let i = find_calendar(cv, calendar_id@);
                &&& (i == -1 ==> (r matches Err(e) && e is NotFound))
                &&& (i != -1 ==> (r matches Ok((n, c, e)) && n@ == cv[i].name && c@ == cv[i].color && e
                    == cv[i].enabled))
            }),
    {
        match find(calendars, calendar_id) {
            Some(i) => {
                let cal = &calendars[i];
                Ok((cal.name.clone(), cal.color.clone(), cal.enabled))
            },
            None => Err(CalendarError::NotFound(String::from_str(calendar_id))),
        }
    }

    /// The id of the first calendar, if there is one.
    pub fn get_first_calendar_id(calendars: &Vec<CalendarInfo>) -> (r: Option<String>)
        ensures
            calendars@.len() == 0 ==> r is None,
            calendars@.len() > 0 ==> (r matches Some(id) && id@ == calendars@[0].id@),
    {
        if calendars.len() == 0 {
            None
        } else {
            Some(calendars[0].id.clone())
        }
    }
}

} // verus!
