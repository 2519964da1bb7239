//! The macOS automation behind reminders, notes and calendar events: the
//! AppleScript each one runs, and the arguments handed to `osascript`. Values
//! travel as arguments and are never written into the script text.

use vstd::prelude::*;
use crate::iso::{local_iso_fields, parse_local_iso};
use crate::numbers::{decimal, signed_decimal, decimal_string, signed_decimal_string};
use crate::text::{trim, trimmed};

verus! {

/// The script that files a reminder: argument 1 is the list, 2 the title,
/// 3 the body, 4 `true` or `false` for whether a due date follows in
/// 5..=10 (year, month, day, hour, minute, second).
pub const REMINDERS_SCRIPT: &'static str = r#"on run argv
  set listName to item 1 of argv
  set reminderTitle to item 2 of argv
  set reminderBody to item 3 of argv
  set hasDue to item 4 of argv
  tell application "Reminders"
    launch
    -- Find the list by looping and holding a direct object reference. Probing
    -- `exists list <name>` / `list <name>` by-name specifier crashes the
    -- Reminders scripting bridge on macOS 26 (NSExistsCommand / NSWhoseSpecifier).
    set theList to missing value
    repeat with aList in every list
      if (name of aList) is listName then
        set theList to aList
        exit repeat
      end if
    end repeat
    if theList is missing value then
      set theList to (make new list with properties {name:listName})
    end if
    if hasDue is "true" then
      set yr to (item 5 of argv) as integer
      set mo to (item 6 of argv) as integer
      set dy to (item 7 of argv) as integer
      set hr to (item 8 of argv) as integer
      set mn to (item 9 of argv) as integer
      set sc to (item 10 of argv) as integer
      set dueDate to current date
      set year of dueDate to yr
      set month of dueDate to mo
      set day of dueDate to dy
      set hours of dueDate to hr
      set minutes of dueDate to mn
      set seconds of dueDate to sc
      tell theList to make new reminder with properties {name:reminderTitle, body:reminderBody, due date:dueDate}
    else
      tell theList to make new reminder with properties {name:reminderTitle, body:reminderBody}
    end if
  end tell
end run"#;

/// The script that files a note: argument 1 is the folder, 3 the HTML body
/// (Notes takes the first body line as the title).
pub const NOTES_SCRIPT: &'static str = r#"on run argv
  set folderName to item 1 of argv
  set noteBody to item 3 of argv
  tell application "Notes"
    launch
    tell default account
      -- Loop for the folder and keep a direct reference; the by-name
      -- `exists folder <name>` specifier is the pattern that crashes the
      -- Reminders/Notes scripting bridge on macOS 26.
      set theFolder to missing value
      repeat with aFolder in every folder
        if (name of aFolder) is folderName then
          set theFolder to aFolder
          exit repeat
        end if
      end repeat
      if theFolder is missing value then
        set theFolder to (make new folder with properties {name:folderName})
      end if
      tell theFolder to make new note with properties {body:noteBody}
    end tell
  end tell
end run"#;

/// The script that files a calendar event: argument 1 is the calendar (empty
/// for the first writable one), 2 the summary, 3 the notes, 4 the alarm
/// minutes (empty for none), 5..=10 the start and 11..=16 the end parts.
pub const CALENDAR_SCRIPT: &'static str = r#"on run argv
  set calName to item 1 of argv
  set evtSummary to item 2 of argv
  set evtBody to item 3 of argv
  set alarmMin to item 4 of argv
  set startDate to current date
  set year of startDate to (item 5 of argv) as integer
  set month of startDate to (item 6 of argv) as integer
  set day of startDate to (item 7 of argv) as integer
  set hours of startDate to (item 8 of argv) as integer
  set minutes of startDate to (item 9 of argv) as integer
  set seconds of startDate to (item 10 of argv) as integer
  set endDate to current date
  set year of endDate to (item 11 of argv) as integer
  set month of endDate to (item 12 of argv) as integer
  set day of endDate to (item 13 of argv) as integer
  set hours of endDate to (item 14 of argv) as integer
  set minutes of endDate to (item 15 of argv) as integer
  set seconds of endDate to (item 16 of argv) as integer
  tell application "Calendar"
    launch
    -- Resolve the calendar by looping and holding a direct reference. The
    -- by-name `exists calendar <name>` / `calendar <name>` and `whose`
    -- specifiers are the scripting pattern that crashes on macOS 26.
    set targetCal to missing value
    if calName is "" then
      repeat with aCal in every calendar
        if (writable of aCal) is true then
          set targetCal to aCal
          exit repeat
        end if
      end repeat
    else
      repeat with aCal in every calendar
        if (name of aCal) is calName then
          set targetCal to aCal
          exit repeat
        end if
      end repeat
      if targetCal is missing value then
        set targetCal to (make new calendar with properties {name:calName})
      end if
    end if
    tell targetCal
      set newEvent to make new event with properties {summary:evtSummary, start date:startDate, end date:endDate, description:evtBody}
      if alarmMin is not "" then
        tell newEvent to make new display alarm at end of display alarms with properties {trigger interval:-(alarmMin as integer)}
      end if
    end tell
  end tell
end run"#;

/// The name given to a list or folder when none is named.
pub const DEFAULT_CONTAINER: &'static str = "Chute";

/// The macOS applications the automation drives.
#[derive(Clone, Copy, Debug, PartialEq, Eq)]
pub enum AppleApp {
    Reminders,
    Notes,
    Calendar,
}

/// The application's name as `open -a` takes it.
pub open spec fn app_name(app: AppleApp) -> Seq<char> {
    match app {
        AppleApp::Reminders => "Reminders"@,
        AppleApp::Notes => "Notes"@,
        AppleApp::Calendar => "Calendar"@,
    }
}

/// The answer where the automation is asked for away from macOS.
pub open spec fn unavailable_message(app: AppleApp) -> Seq<char> {
    match app {
        AppleApp::Reminders => "Apple Reminders is only available on macOS."@,
        AppleApp::Notes => "Apple Notes is only available on macOS."@,
        AppleApp::Calendar => "Apple Calendar is only available on macOS."@,
    }
}

/// The answer where `osascript` fails without saying why.
pub open spec fn permission_message(app: AppleApp) -> Seq<char> {
    match app {
        AppleApp::Reminders => "Apple Reminders automation failed. Grant Chute permission to control Reminders in System Settings > Privacy & Security > Automation."@,
        AppleApp::Notes => "Apple Notes automation failed. Grant Chute permission to control Notes in System Settings > Privacy & Security > Automation."@,
        AppleApp::Calendar => "Apple Calendar automation failed. Grant Chute permission to control Calendar in System Settings > Privacy & Security > Automation."@,
    }
}

/// The script text of each application.
pub open spec fn app_script(app: AppleApp) -> Seq<char> {
    match app {
        AppleApp::Reminders => REMINDERS_SCRIPT@,
        AppleApp::Notes => NOTES_SCRIPT@,
        AppleApp::Calendar => CALENDAR_SCRIPT@,
    }
}

impl AppleApp {
    /// The application's name as `open -a` takes it.
    pub fn name(&self) -> (r: &'static str)
        ensures
            r@ == app_name(*self),
    {
        match self {
            AppleApp::Reminders => "Reminders",
            AppleApp::Notes => "Notes",
            AppleApp::Calendar => "Calendar",
        }
    }

    /// The answer where the automation is asked for away from macOS.
    pub fn unavailable_message(&self) -> (r: &'static str)
        ensures
            r@ == unavailable_message(*self),
    {
        match self {
            AppleApp::Reminders => "Apple Reminders is only available on macOS.",
            AppleApp::Notes => "Apple Notes is only available on macOS.",
            AppleApp::Calendar => "Apple Calendar is only available on macOS.",
        }
    }

    /// The AppleScript that the application's automation runs.
    pub fn script(&self) -> (r: &'static str)
        ensures
            r@ == app_script(*self),
    {
        match self {
            AppleApp::Reminders => REMINDERS_SCRIPT,
            AppleApp::Notes => NOTES_SCRIPT,
            AppleApp::Calendar => CALENDAR_SCRIPT,
        }
    }
}

/// The texts of a list of strings.
pub open spec fn texts(v: Seq<String>) -> Seq<Seq<char>> {
    v.map_values(|s: String| s@)
}

/// A container name with its blank ends removed, or `Chute` where nothing is left.
pub open spec fn name_or_default(name: Seq<char>) -> Seq<char> {
    if trim(name).len() == 0 {
        DEFAULT_CONTAINER@
    } else {
        trim(name)
    }
}

/// The six date-time parts as decimal arguments.
pub open spec fn part_texts(p: (i32, u32, u32, u32, u32, u32)) -> Seq<Seq<char>> {
    seq![
        signed_decimal(p.0 as int),
        decimal(p.1 as nat),
        decimal(p.2 as nat),
        decimal(p.3 as nat),
        decimal(p.4 as nat),
        decimal(p.5 as nat),
    ]
}

/// The due-date arguments of a reminder: `true` and the parts where the due
/// text reads as a date-time, `false` otherwise.
pub open spec fn due_texts(due_date: Option<Seq<char>>) -> Seq<Seq<char>> {
    let parsed = match due_date {
        Some(t) => local_iso_fields(t),
        None => None,
    };
    match parsed {
        Some(p) => seq!["true"@] + part_texts(p),
        None => seq!["false"@],
    }
}

/// The `osascript` arguments that file a reminder.
pub open spec fn reminder_args(
    list: Seq<char>,
    title: Seq<char>,
    body: Seq<char>,
    due_date: Option<Seq<char>>,
) -> Seq<Seq<char>> {
    seq!["-"@, name_or_default(list), title, body] + due_texts(due_date)
}

/// The `osascript` arguments that file a note.
pub open spec fn note_args(folder: Seq<char>, title: Seq<char>, body: Seq<char>) -> Seq<Seq<char>> {
    seq!["-"@, name_or_default(folder), title, body]
}

/// The alarm argument: the minutes as a numeral, or empty for none.
pub open spec fn alarm_text(alarm_minutes: Option<i64>) -> Seq<char> {
    match alarm_minutes {
        Some(m) => signed_decimal(m as int),
        None => Seq::empty(),
    }
}

/// The `osascript` arguments that file a calendar event, or the answer when
/// the start or the end (checked in that order) does not read as a date-time.
pub open spec fn calendar_args(
    calendar: Seq<char>,
    title: Seq<char>,
    notes: Seq<char>,
    start: Seq<char>,
    end: Seq<char>,
    alarm_minutes: Option<i64>,
) -> Result<Seq<Seq<char>>, Seq<char>> {
    match local_iso_fields(start) {
        None => Err("Event start time was invalid."@),
        Some(a) => match local_iso_fields(end) {
            None => Err("Event end time was invalid."@),
            Some(b) => Ok(
                seq!["-"@, trim(calendar), title, notes, alarm_text(alarm_minutes)] + part_texts(a)
                    + part_texts(b),
            ),
        },
    }
}

/// What the user is told when `osascript` fails: its error output with the
/// blank ends removed, or the permission hint where that is empty.
pub open spec fn failure_detail(app: AppleApp, stderr: Seq<char>) -> Seq<char> {
    if trim(stderr).len() == 0 {
        permission_message(app)
    } else {
        trim(stderr)
    }
}

fn push_text(args: &mut Vec<String>, s: String)
    ensures
        texts(final(args)@) == texts(old(args)@).push(s@),
{
    args.push(s);
    assert(texts(args@) =~= texts(old(args)@).push(s@));
}

fn push_parts(args: &mut Vec<String>, p: (i32, u32, u32, u32, u32, u32))
    ensures
        texts(final(args)@) == texts(old(args)@) + part_texts(p),
{
    push_text(args, signed_decimal_string(p.0 as i64));
    push_text(args, decimal_string(p.1 as u128));
    push_text(args, decimal_string(p.2 as u128));
    push_text(args, decimal_string(p.3 as u128));
    push_text(args, decimal_string(p.4 as u128));
    push_text(args, decimal_string(p.5 as u128));
    assert(texts(args@) =~= texts(old(args)@) + part_texts(p));
}

/// The container name to use: `name` with its blank ends removed, or `Chute`
/// where nothing is left.
pub fn container_or_default(name: &str) -> (r: String)
    ensures
        r@ == name_or_default(name@),
{
    let t = trimmed(name);
    if t.as_str().is_empty() {
        String::from_str(DEFAULT_CONTAINER)
    } else {
        t
    }
}

/// The `open` arguments that start `app` in the background, without taking
/// focus and hidden, so that the script never meets an application that is
/// still starting.
pub fn background_launch_args(app: AppleApp) -> (r: Vec<String>)
    ensures
        texts(r@) == seq!["-g"@, "-j"@, "-a"@, app_name(app)],
{
    let mut r: Vec<String> = Vec::new();
    push_text(&mut r, String::from_str("-g"));
    push_text(&mut r, String::from_str("-j"));
    push_text(&mut r, String::from_str("-a"));
    push_text(&mut r, String::from_str(app.name()));
    assert(texts(r@) =~= seq!["-g"@, "-j"@, "-a"@, app_name(app)]);
    r
}

/// The `osascript` arguments that file a reminder in `list` (or `Chute`),
/// with a due date where `due_date` reads as a local date-time.
pub fn reminder_osascript_args(list: &str, title: &str, body: &str, due_date: Option<&str>) -> (r:
    Vec<String>)
    ensures
        texts(r@) == reminder_args(
            list@,
            title@,
            body@,
            match due_date {
                Some(t) => Some(t@),
                None => None,
            },
        ),
{
    let mut r: Vec<String> = Vec::new();
    push_text(&mut r, String::from_str("-"));
    push_text(&mut r, container_or_default(list));
    push_text(&mut r, String::from_str(title));
    push_text(&mut r, String::from_str(body));
    let parsed = match due_date {
        Some(t) => parse_local_iso(t),
        None => None,
    };
    match parsed {
        Some(p) => {
            push_text(&mut r, String::from_str("true"));
            push_parts(&mut r, p);
        },
        None => {
            push_text(&mut r, String::from_str("false"));
        },
    }
    let ghost due = match due_date {
        Some(t) => Some(t@),
        None => None,
    };
    assert(texts(r@) =~= reminder_args(list@, title@, body@, due));
    r
}

/// The `osascript` arguments that file a note in `folder` (or `Chute`).
pub fn note_osascript_args(folder: &str, title: &str, body: &str) -> (r: Vec<String>)
    ensures
        texts(r@) == note_args(folder@, title@, body@),
{
    let mut r: Vec<String> = Vec::new();
    push_text(&mut r, String::from_str("-"));
    push_text(&mut r, container_or_default(folder));
    push_text(&mut r, String::from_str(title));
    push_text(&mut r, String::from_str(body));
    assert(texts(r@) =~= note_args(folder@, title@, body@));
    r
}

/// The `osascript` arguments that file a calendar event, or the answer where
/// the start or the end does not read as a local date-time.
pub fn calendar_osascript_args(
    calendar: &str,
    title: &str,
    notes: &str,
    start: &str,
    end: &str,
    alarm_minutes: Option<i64>,
) -> (r: Result<Vec<String>, String>)
    ensures
        match r {
            Ok(v) => calendar_args(calendar@, title@, notes@, start@, end@, alarm_minutes) == Ok::<
                Seq<Seq<char>>,
                Seq<char>,
            >(texts(v@)),
            Err(e) => calendar_args(calendar@, title@, notes@, start@, end@, alarm_minutes) == Err::<
                Seq<Seq<char>>,
                Seq<char>,
            >(e@),
        },
{
    let a = match parse_local_iso(start) {
        Some(a) => a,
        None => return Err(String::from_str("Event start time was invalid.")),
    };
    let b = match parse_local_iso(end) {
        Some(b) => b,
        None => return Err(String::from_str("Event end time was invalid.")),
    };
    let mut r: Vec<String> = Vec::new();
    push_text(&mut r, String::from_str("-"));
    push_text(&mut r, trimmed(calendar));
    push_text(&mut r, String::from_str(title));
    push_text(&mut r, String::from_str(notes));
    let alarm = match alarm_minutes {
        Some(m) => signed_decimal_string(m),
        None => String::new(),
    };
    push_text(&mut r, alarm);
    push_parts(&mut r, a);
    push_parts(&mut r, b);
    assert(texts(r@) =~= seq!["-"@, trim(calendar@), title@, notes@, alarm_text(alarm_minutes)]
        + part_texts(a) + part_texts(b));
    Ok(r)
}

/// What the user is told when `osascript` for `app` fails with the error
/// output `stderr`.
pub fn automation_failure_detail(app: AppleApp, stderr: &str) -> (r: String)
    ensures
        r@ == failure_detail(app, stderr@),
{
    let t = trimmed(stderr);
    if t.as_str().is_empty() {
        match app {
            AppleApp::Reminders => String::from_str(
                "Apple Reminders automation failed. Grant Chute permission to control Reminders in System Settings > Privacy & Security > Automation.",
            ),
            AppleApp::Notes => String::from_str(
                "Apple Notes automation failed. Grant Chute permission to control Notes in System Settings > Privacy & Security > Automation.",
            ),
            AppleApp::Calendar => String::from_str(
                "Apple Calendar automation failed. Grant Chute permission to control Calendar in System Settings > Privacy & Security > Automation.",
            ),
        }
    } else {
        t
    }
}

/// The user's values reach the scripts only as arguments, unchanged: the
/// title and body of a reminder or note, and the title and notes of a calendar
/// event, are arguments 2 and 3 exactly as given.
pub proof fn automation_passes_values_verbatim(
    container: Seq<char>,
    title: Seq<char>,
    body: Seq<char>,
    due_date: Option<Seq<char>>,
    start: Seq<char>,
    end: Seq<char>,
    alarm_minutes: Option<i64>,
)
    ensures
        reminder_args(container, title, body, due_date)[2] == title,
        reminder_args(container, title, body, due_date)[3] == body,
        note_args(container, title, body)[2] == title,
        note_args(container, title, body)[3] == body,
        calendar_args(container, title, body, start, end, alarm_minutes) matches Ok(args) ==> args[2]
            == title && args[3] == body,
{
}

/// A reminder gets a due date exactly when the due text reads as a local
/// date-time; otherwise it is filed without one.
pub proof fn reminder_due_date_iff_readable(
    list: Seq<char>,
    title: Seq<char>,
    body: Seq<char>,
    due_date: Option<Seq<char>>,
)
    ensures
        ({
            let args = reminder_args(list, title, body, due_date);
            let readable = due_date matches Some(t) && local_iso_fields(t) is Some;
            &&& readable ==> args.len() == 11 && args[4] == "true"@
            &&& !readable ==> args.len() == 5 && args[4] == "false"@
        }),
{
}

/// A calendar event is filed with the times it was asked for: where both
/// the start and the end read as local date-times, the arguments are `-`, the
/// calendar name with its blank ends removed, the title, the notes, the alarm
/// minutes (empty for none), then the start's year, month, day, hour, minute
/// and second and the end's, each as its numeral, in that order.
pub proof fn calendar_event_carries_its_times(
    calendar: Seq<char>,
    title: Seq<char>,
    notes: Seq<char>,
    start: Seq<char>,
    end: Seq<char>,
    alarm_minutes: Option<i64>,
)
    requires
        local_iso_fields(start) is Some,
        local_iso_fields(end) is Some,
    ensures
        ({
            let (y, mo, d, h, mi, s) = local_iso_fields(start)->0;
            let (ey, emo, ed, eh, emi, es) = local_iso_fields(end)->0;
            &&& calendar_args(calendar, title, notes, start, end, alarm_minutes) matches Ok(args)
            &&& args.len() == 17
            &&& args[0] == "-"@
            &&& args[1] == trim(calendar)
            &&& args[2] == title
            &&& args[3] == notes
            &&& args[4] == match alarm_minutes {
                Some(m) => signed_decimal(m as int),
                None => Seq::<char>::empty(),
            }
            &&& args[5] == signed_decimal(y as int)
            &&& args[6] == decimal(mo as nat)
            &&& args[7] == decimal(d as nat)
            &&& args[8] == decimal(h as nat)
            &&& args[9] == decimal(mi as nat)
            &&& args[10] == decimal(s as nat)
            &&& args[11] == signed_decimal(ey as int)
            &&& args[12] == decimal(emo as nat)
            &&& args[13] == decimal(ed as nat)
            &&& args[14] == decimal(eh as nat)
            &&& args[15] == decimal(emi as nat)
            &&& args[16] == decimal(es as nat)
        }),
{
}

/// A calendar event is refused exactly where the start or the end does not
/// read as a local date-time, with the start's answer first.
pub proof fn calendar_event_refused_on_unreadable_times(
    calendar: Seq<char>,
    title: Seq<char>,
    notes: Seq<char>,
    start: Seq<char>,
    end: Seq<char>,
    alarm_minutes: Option<i64>,
)
    ensures
        local_iso_fields(start) is None ==> calendar_args(
            calendar,
            title,
            notes,
            start,
            end,
            alarm_minutes,
        ) == Err::<Seq<Seq<char>>, Seq<char>>("Event start time was invalid."@),
        local_iso_fields(start) is Some && local_iso_fields(end) is None ==> calendar_args(
            calendar,
            title,
            notes,
            start,
            end,
            alarm_minutes,
        ) == Err::<Seq<Seq<char>>, Seq<char>>("Event end time was invalid."@),
{
}

/// A reminder whose due text reads as a local date-time is due at exactly
/// that time: after `-`, the list, the title and the body come `true` and
/// the year, month, day, hour, minute and second, each as its numeral, in
/// that order.
pub proof fn reminder_is_due_when_asked(
    list: Seq<char>,
    title: Seq<char>,
    body: Seq<char>,
    due: Seq<char>,
)
    requires
        local_iso_fields(due) is Some,
    ensures
        ({
            let (y, mo, d, h, mi, s) = local_iso_fields(due)->0;
            let args = reminder_args(list, title, body, Some(due));
            &&& args.len() == 11
            &&& args[0] == "-"@
            &&& args[2] == title
            &&& args[3] == body
            &&& args[4] == "true"@
            &&& args[5] == signed_decimal(y as int)
            &&& args[6] == decimal(mo as nat)
            &&& args[7] == decimal(d as nat)
            &&& args[8] == decimal(h as nat)
            &&& args[9] == decimal(mi as nat)
            &&& args[10] == decimal(s as nat)
        }),
{
}

/// Reminders and notes are filed where they were asked to be: the list or
/// folder argument is the requested name with its blank ends removed, and
/// `Chute` only when nothing is left of it.
pub proof fn container_is_the_requested_one(
    container: Seq<char>,
    title: Seq<char>,
    body: Seq<char>,
    due_date: Option<Seq<char>>,
)
    ensures
        trim(container).len() > 0 ==> note_args(container, title, body)[1] == trim(container)
            && reminder_args(container, title, body, due_date)[1] == trim(container),
        trim(container).len() == 0 ==> note_args(container, title, body)[1] == "Chute"@
            && reminder_args(container, title, body, due_date)[1] == "Chute"@,
        note_args(container, title, body) == seq![
            "-"@,
            note_args(container, title, body)[1],
            title,
            body,
        ],
{
}

} // verus!
