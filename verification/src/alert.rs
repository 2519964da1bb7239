//! The system notification that announces an elapsed timer.

use vstd::prelude::*;
use crate::text::{chars_of, push_char};

verus! {

/// `label` with every backslash turned into a space and every double quote
/// into a single quote, so that it cannot end an AppleScript string literal.
pub open spec fn sanitized_label(label: Seq<char>) -> Seq<char> {
    label.map_values(|c: char| if c == '\\' { ' ' } else if c == '"' { '\'' } else { c })
}

/// The notification title for the timer `label`.
pub open spec fn alert_title(label: Seq<char>) -> Seq<char> {
    "Chute \u{2014} "@ + sanitized_label(label)
}

/// The AppleScript that shows the "Time's up" notification, with the Glass
/// sound, for the timer `label`.
pub open spec fn alert_script(label: Seq<char>) -> Seq<char> {
    "display notification \"Time's up\" with title \""@ + alert_title(label)
        + "\" sound name \"Glass\""@
}

/// The arguments for `osascript` that announce that the timer `label` is up:
/// `-e` and the notification script. The host runs them on macOS and does
/// nothing elsewhere.
pub fn fire_timer_alert(label: &str) -> (args: Vec<String>)
    ensures
        args@.len() == 2,
        args@[0]@ == "-e"@,
        args@[1]@ == alert_script(label@),
{
    let cs = chars_of(label);
    let mut script = String::from_str("display notification \"Time's up\" with title \"");
    script.append("Chute \u{2014} ");
    let ghost head = script@;
    let mut i: usize = 0;
    while i < cs.len()
        invariant
            i <= cs@.len(),
            cs@ == label@,
            script@ == head + sanitized_label(label@.take(i as int)),
        decreases cs@.len() - i,
    {
        let c = cs[i];
        let d = if c == '\\' {
            ' '
        } else if c == '"' {
            '\''
        } else {
            c
        };
        push_char(&mut script, d);
        assert(sanitized_label(label@.take(i + 1)) =~= sanitized_label(label@.take(i as int)).push(d));
        i += 1;
    }
    assert(label@.take(i as int) =~= label@);
    script.append("\" sound name \"Glass\"");
    assert(script@ =~= alert_script(label@));
    let mut args: Vec<String> = Vec::new();
    args.push(String::from_str("-e"));
    args.push(script);
    args
}

/// The title put to the notification never holds a double quote or a
/// backslash, whatever the label: the label cannot close the AppleScript
/// string it is placed in.
pub proof fn alert_title_is_quote_free(label: Seq<char>)
    ensures
        forall|i: int|
            0 <= i < sanitized_label(label).len() ==> #[trigger] sanitized_label(label)[i] != '"'
                && sanitized_label(label)[i] != '\\',
{
}

/// The notification keeps the label as it was, in place: the script is the
/// fixed text `display notification "Time's up" with title "Chute — `, then
/// one character for each character of the label, then
/// `" sound name "Glass"`; each label character other than a backslash or a
/// double quote appears unchanged at its place, a backslash becomes a space
/// and a double quote a single quote.
pub proof fn alert_keeps_the_label(label: Seq<char>)
    ensures
        ({
            let head = "display notification \"Time's up\" with title \""@ + "Chute \u{2014} "@;
            let tail = "\" sound name \"Glass\""@;
            let script = alert_script(label);
            &&& script.len() == head.len() + label.len() + tail.len()
            &&& script.subrange(0, head.len() as int) == head
            &&& script.subrange((head.len() + label.len()) as int, script.len() as int) == tail
            &&& forall|i: int|
                0 <= i < label.len() ==> #[trigger] script[head.len() + i] == (if label[i] == '\\' {
                    ' '
                } else if label[i] == '"' {
                    '\''
                } else {
                    label[i]
                })
        }),
{
    let head = "display notification \"Time's up\" with title \""@ + "Chute \u{2014} "@;
    let tail = "\" sound name \"Glass\""@;
    let s = sanitized_label(label);
    let script = alert_script(label);
    assert(script =~= head + s + tail);
    assert(script.subrange(0, head.len() as int) =~= head);
    assert(script.subrange((head.len() + label.len()) as int, script.len() as int) =~= tail);
    assert forall|i: int| 0 <= i < label.len() implies #[trigger] script[head.len() + i] == (if label[i]
        == '\\' {
        ' '
    } else if label[i] == '"' {
        '\''
    } else {
        label[i]
    }) by {
        assert(script[head.len() + i] == s[i]);
    }
}

} // verus!
