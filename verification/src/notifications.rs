//! User notifications: at most one question, at most three buttons, no
//! technical jargon in the text shown to the user.

use vstd::prelude::*;
use crate::text::{
    append_chars, append_str, chars_of, contains, contains_seq, decimal, decimal_chars, join,
    join_chars, lines, lines_of, lowercase, push_spaces, spaces, string_of, take_chars, text,
    to_lowercase,
};

verus! {

/// A notification action (button).
#[derive(Debug, Clone)]
pub struct Action {
    /// Label shown on the button.
    pub label: String,
    /// Unique identifier for the action.
    pub id: String,
}

/// A user notification.
#[derive(Debug, Clone)]
pub struct Notification {
    /// Notification title (keep short).
    pub title: String,
    /// Notification body text (no jargon).
    pub body: String,
    /// Action buttons (at most 3).
    pub actions: Vec<Action>,
}

/// Why a notification breaks the rules.
#[derive(Debug, Clone)]
pub enum NotificationError {
    /// More than three buttons; holds the number of buttons.
    TooManyButtons(usize),
    /// The body holds a jargon word; holds that word.
    Jargon(String),
    /// The title and body ask more than one question.
    TooManyQuestions,
}

/// The most buttons a notification may carry.
pub const MAX_BUTTONS: usize = 3;

/// The most questions a notification may ask.
pub const MAX_QUESTIONS: usize = 1;

/// The number of words that count as jargon.
pub const JARGON_COUNT: usize = 7;

/// The jargon words, in the order in which they are looked for.
pub open spec fn jargon_word(i: int) -> Seq<char> {
    if i == 0 {
        "kernel"@
    } else if i == 1 {
        "module"@
    } else if i == 2 {
        "driver"@
    } else if i == 3 {
        "udev"@
    } else if i == 4 {
        "irq"@
    } else if i == 5 {
        "dma"@
    } else {
        "ioctl"@
    }
}

fn jargon_word_str(i: usize) -> (w: &'static str)
    requires
        i < JARGON_COUNT,
    ensures
        w@ == jargon_word(i as int),
{
    if i == 0 {
        "kernel"
    } else if i == 1 {
        "module"
    } else if i == 2 {
        "driver"
    } else if i == 3 {
        "udev"
    } else if i == 4 {
        "irq"
    } else if i == 5 {
        "dma"
    } else {
        "ioctl"
    }
}

/// The index of the first jargon word, from index `i` on, that occurs in the
/// lower-cased body.
pub open spec fn first_jargon_from(body_lower: Seq<char>, i: int) -> Option<int>
    decreases JARGON_COUNT - i,
{
    if i < 0 || i >= JARGON_COUNT {
        None
    } else if contains_seq(body_lower, jargon_word(i)) {
        Some(i)
    } else {
        first_jargon_from(body_lower, i + 1)
    }
}

/// The index of the first jargon word that occurs in the lower-cased body.
pub open spec fn first_jargon(body_lower: Seq<char>) -> Option<int> {
    first_jargon_from(body_lower, 0)
}

/// How many times `c` occurs in `s`.
pub open spec fn count_char(s: Seq<char>, c: char) -> nat
    decreases s.len(),
{
    if s.len() == 0 {
        0
    } else {
        count_char(s.drop_last(), c) + if s.last() == c { 1nat } else { 0nat }
    }
}

/// The number of questions asked by a title and a body: their question
/// marks.
pub open spec fn questions(title: Seq<char>, body: Seq<char>) -> nat {
    count_char(title, '?') + count_char(body, '?')
}

fn count_char_exec(s: &[char], c: char) -> (r: usize)
    ensures
        r == count_char(s@, c),
{
    let mut n: usize = 0;
    let mut i: usize = 0;
    while i < s.len()
        invariant
            0 <= i <= s@.len(),
            n <= i,
            n == count_char(s@.take(i as int), c),
        decreases s@.len() - i,
    {
        assert(s@.take(i as int + 1).drop_last() =~= s@.take(i as int));
        if s[i] == c {
            n = n + 1;
        }
        i = i + 1;
    }
    assert(s@.take(s@.len() as int) =~= s@);
    n
}

/// What the rules say of a notification with `buttons` buttons, the given
/// title and body, and the body's lower-cased form: `Ok` when it may be
/// shown.
pub open spec fn rules_allow(buttons: nat, title: Seq<char>, body: Seq<char>, body_lower: Seq<char>) -> bool {
    buttons <= MAX_BUTTONS && questions(title, body) <= MAX_QUESTIONS && first_jargon(body_lower) is None
}

/// The rules' verdict, given the number of buttons, the title, the body and
/// the lower-cased body: too many buttons first, then more than one
/// question, then the first jargon word found.
pub fn check_rules(buttons: usize, title: &[char], body: &[char], body_lower: &[char]) -> (r: Result<(), NotificationError>)
    ensures
        r is Ok <==> rules_allow(buttons as nat, title@, body@, body_lower@),
        buttons > MAX_BUTTONS ==> (r matches Err(NotificationError::TooManyButtons(k)) && k == buttons),
        buttons <= MAX_BUTTONS && questions(title@, body@) > MAX_QUESTIONS
            ==> r == Err::<(), NotificationError>(NotificationError::TooManyQuestions),
        buttons <= MAX_BUTTONS && questions(title@, body@) <= MAX_QUESTIONS ==> match first_jargon(body_lower@) {
            Some(i) => (r matches Err(NotificationError::Jargon(w)) && w@ == jargon_word(i)),
            None => r is Ok,
        },
{
    if buttons > MAX_BUTTONS {
        return Err(NotificationError::TooManyButtons(buttons));
    }
    let qt = count_char_exec(title, '?');
    if qt > MAX_QUESTIONS {
        return Err(NotificationError::TooManyQuestions);
    }
    let qb = count_char_exec(body, '?');
    if qb > MAX_QUESTIONS - qt {
        return Err(NotificationError::TooManyQuestions);
    }
    let mut i: usize = 0;
    while i < JARGON_COUNT
        invariant
            0 <= i <= JARGON_COUNT,
            buttons <= MAX_BUTTONS,
            questions(title@, body@) <= MAX_QUESTIONS,
            first_jargon(body_lower@) == first_jargon_from(body_lower@, i as int),
        decreases JARGON_COUNT - i,
    {
        let word = jargon_word_str(i);
        let w = text(word);
        if contains(body_lower, &w) {
            return Err(NotificationError::Jargon(String::from_str(word)));
        }
        i = i + 1;
    }
    Ok(())
}

/// The first jargon word found, from index `i` on, is one of the words from
/// `i` on, and the body contains it.
proof fn lemma_first_jargon_found(body_lower: Seq<char>, i: int)
    requires
        0 <= i,
    ensures
        first_jargon_from(body_lower, i) matches Some(k) ==> i <= k < JARGON_COUNT
            && contains_seq(body_lower, jargon_word(k)),
    decreases JARGON_COUNT - i,
{
    if i < JARGON_COUNT && !contains_seq(body_lower, jargon_word(i)) {
        lemma_first_jargon_found(body_lower, i + 1);
    }
}

/// The jargon words are exactly "kernel", "module", "driver", "udev", "irq",
/// "dma" and "ioctl": a notification within the button and question limits
/// passes the rules exactly when its lower-cased body contains none of them.
pub proof fn law_jargon_words(buttons: nat, title: Seq<char>, body: Seq<char>, body_lower: Seq<char>)
    requires
        buttons <= MAX_BUTTONS,
        questions(title, body) <= MAX_QUESTIONS,
    ensures
        rules_allow(buttons, title, body, body_lower) <==> !(
            contains_seq(body_lower, "kernel"@) || contains_seq(body_lower, "module"@)
            || contains_seq(body_lower, "driver"@) || contains_seq(body_lower, "udev"@)
            || contains_seq(body_lower, "irq"@) || contains_seq(body_lower, "dma"@)
            || contains_seq(body_lower, "ioctl"@)),
{
    law_rules_within_limits(buttons, title, body, body_lower);
    lemma_first_jargon_found(body_lower, 0);
    assert(jargon_word(0) == "kernel"@);
    assert(jargon_word(1) == "module"@);
    assert(jargon_word(2) == "driver"@);
    assert(jargon_word(3) == "udev"@);
    assert(jargon_word(4) == "irq"@);
    assert(jargon_word(5) == "dma"@);
    assert(jargon_word(6) == "ioctl"@);
}

/// A padded text is always `width` characters long: the text's first
/// characters (all of it when it fits, else its first `width`), then spaces.
pub proof fn law_padded_width(s: Seq<char>, width: nat)
    ensures
        padded_text(s, width).len() == width,
        forall|i: int| 0 <= i < width && i < s.len() ==> #[trigger] padded_text(s, width)[i] == s[i],
        forall|i: int| s.len() <= i < width ==> #[trigger] padded_text(s, width)[i] == ' ',
{
}

/// Every row that shows a line of the body is as wide as the box: the
/// line padded or cut to 38 columns between the two borders.
pub proof fn law_body_rows_fit(title: Seq<char>, body: Seq<char>, actions: Seq<Action>)
    ensures
        forall|k: int| 0 <= k < lines_of(body).len() ==> (#[trigger] terminal_rows(title, body, actions)[3 + k]).len() == 42,
{
    assert("│ "@.len() == 2) by {
        reveal_strlit("│ ");
    }
    assert(" │"@.len() == 2) by {
        reveal_strlit(" │");
    }
    assert forall|k: int| 0 <= k < lines_of(body).len() implies (#[trigger] terminal_rows(title, body, actions)[3 + k]).len() == 42 by {
        law_padded_width(lines_of(body)[k], 38);
    }
}

/// A notification with at most three buttons and at most one question
/// passes the rules exactly when its lower-cased body holds no jargon word,
/// and then none of the jargon words occurs in it.
pub proof fn law_rules_within_limits(buttons: nat, title: Seq<char>, body: Seq<char>, body_lower: Seq<char>)
    requires
        buttons <= MAX_BUTTONS,
        questions(title, body) <= MAX_QUESTIONS,
    ensures
        rules_allow(buttons, title, body, body_lower) <==> first_jargon(body_lower) is None,
        rules_allow(buttons, title, body, body_lower) ==> forall|i: int| 0 <= i < JARGON_COUNT ==> !contains_seq(body_lower, #[trigger] jargon_word(i)),
{
    if rules_allow(buttons, title, body, body_lower) {
        lemma_no_first_jargon(body_lower, 0);
    }
}

proof fn lemma_no_first_jargon(body_lower: Seq<char>, i: int)
    requires
        0 <= i <= JARGON_COUNT,
        first_jargon_from(body_lower, i) is None,
    ensures
        forall|k: int| i <= k < JARGON_COUNT ==> !contains_seq(body_lower, #[trigger] jargon_word(k)),
    decreases JARGON_COUNT - i,
{
    if i < JARGON_COUNT {
        lemma_no_first_jargon(body_lower, i + 1);
    }
}

impl Notification {
    /// Validates the notification rules: at most 3 buttons, at most one
    /// question (question mark) in the title and body, no jargon in the body
    /// (looked for in its lower-case form).
    pub fn validate(&self) -> (r: Result<(), NotificationError>)
        ensures
            r is Ok <==> rules_allow(self.actions@.len(), self.title@, self.body@, lowercase(self.body@)),
            self.actions@.len() > MAX_BUTTONS ==> (r matches Err(NotificationError::TooManyButtons(k))
                && k == self.actions@.len()),
            self.actions@.len() <= MAX_BUTTONS && questions(self.title@, self.body@) > MAX_QUESTIONS
                ==> r == Err::<(), NotificationError>(NotificationError::TooManyQuestions),
            self.actions@.len() <= MAX_BUTTONS && questions(self.title@, self.body@) <= MAX_QUESTIONS
                ==> match first_jargon(lowercase(self.body@)) {
                Some(i) => (r matches Err(NotificationError::Jargon(w)) && w@ == jargon_word(i)),
                None => r is Ok,
            },
    {
        if self.actions.len() > MAX_BUTTONS {
            return Err(NotificationError::TooManyButtons(self.actions.len()));
        }
        let title = chars_of(self.title.as_str());
        let body = chars_of(self.body.as_str());
        let body_lower = to_lowercase(&body);
        check_rules(self.actions.len(), &title, &body, &body_lower)
    }

    /// A notification with one "OK" button.
    pub fn simple(title: &str, body: &str) -> (r: Notification)
        ensures
            r.title@ == title@,
            r.body@ == body@,
            r.actions@.len() == 1,
            r.actions@[0].label@ == "OK"@,
            r.actions@[0].id@ == "ok"@,
    {
        let mut actions: Vec<Action> = Vec::new();
        actions.push(Action { label: String::from_str("OK"), id: String::from_str("ok") });
        Notification { title: String::from_str(title), body: String::from_str(body), actions }
    }

    /// A notification asking a question, with one button per choice
    /// (label, id); at most 3 choices.
    pub fn question(title: &str, body: &str, choices: Vec<(&str, &str)>) -> (r: Notification)
        requires
            choices@.len() <= MAX_BUTTONS,
        ensures
            r.title@ == title@,
            r.body@ == body@,
            r.actions@.len() == choices@.len(),
            forall|i: int| 0 <= i < choices@.len() ==> {
                &&& (#[trigger] r.actions@[i]).label@ == choices@[i].0@
                &&& r.actions@[i].id@ == choices@[i].1@
            },
    {
        let mut actions: Vec<Action> = Vec::new();
        let mut i: usize = 0;
        while i < choices.len()
            invariant
                0 <= i <= choices@.len(),
                actions@.len() == i,
                forall|k: int| 0 <= k < i ==> {
                    &&& (#[trigger] actions@[k]).label@ == choices@[k].0@
                    &&& actions@[k].id@ == choices@[k].1@
                },
            decreases choices@.len() - i,
        {
            let (label, id) = choices[i];
            actions.push(Action { label: String::from_str(label), id: String::from_str(id) });
            i = i + 1;
        }
        Notification { title: String::from_str(title), body: String::from_str(body), actions }
    }
}


impl NotificationError {
    /// The message that describes the error.
    pub fn message(&self) -> (r: String)
        ensures
            r@ == match self {
                NotificationError::TooManyButtons(n) => "Too many buttons: "@ + decimal(*n as nat)
                    + " (max 3)"@,
                NotificationError::Jargon(w) => "Jargon detected: "@ + w@,
                NotificationError::TooManyQuestions => "Too many questions (max 1)"@,
            },
    {
        let mut out: Vec<char> = Vec::new();
        match self {
            NotificationError::TooManyButtons(n) => {
                append_str(&mut out, "Too many buttons: ");
                let d = decimal_chars(*n as u128);
                append_chars(&mut out, &d);
                append_str(&mut out, " (max 3)");
            },
            NotificationError::Jargon(w) => {
                append_str(&mut out, "Jargon detected: ");
                append_str(&mut out, w.as_str());
            },
            NotificationError::TooManyQuestions => {
                append_str(&mut out, "Too many questions (max 1)");
            },
        }
        string_of(&out)
    }
}

/// `s` centered in `width` columns: left-padded by half the free space,
/// or cut to `width` characters when it does not fit.
pub open spec fn centered_text(s: Seq<char>, width: nat) -> Seq<char> {
    if s.len() >= width {
        s.take(width as int)
    } else {
        spaces(((width - s.len()) / 2) as nat) + s
    }
}

/// `s` right-padded to `width` columns, or cut to `width` characters.
pub open spec fn padded_text(s: Seq<char>, width: nat) -> Seq<char> {
    if s.len() >= width {
        s.take(width as int)
    } else {
        s + spaces((width - s.len()) as nat)
    }
}

fn centered_chars(s: &[char], width: usize) -> (r: Vec<char>)
    ensures
        r@ == centered_text(s@, width as nat),
{
    let n = s.len();
    if n >= width {
        return take_chars(s, width);
    }
    let mut out: Vec<char> = Vec::new();
    push_spaces(&mut out, (width - n) / 2);
    append_chars(&mut out, s);
    out
}

fn padded_chars(s: &[char], width: usize) -> (r: Vec<char>)
    ensures
        r@ == padded_text(s@, width as nat),
{
    let n = s.len();
    if n >= width {
        return take_chars(s, width);
    }
    let mut out: Vec<char> = Vec::new();
    append_chars(&mut out, s);
    push_spaces(&mut out, width - n);
    out
}

/// Centers a text in `width` columns (counted in characters).
pub fn centered(s: &str, width: usize) -> (r: String)
    ensures
        r@ == centered_text(s@, width as nat),
{
    let cs = chars_of(s);
    let out = centered_chars(&cs, width);
    string_of(&out)
}

/// Pads a text to `width` columns (counted in characters).
pub fn padded(s: &str, width: usize) -> (r: String)
    ensures
        r@ == padded_text(s@, width as nat),
{
    let cs = chars_of(s);
    let out = padded_chars(&cs, width);
    string_of(&out)
}

/// The inner width of the terminal notification box.
pub const BOX_WIDTH: usize = 38;

/// One row of the terminal box around `inner`.
pub open spec fn boxed(inner: Seq<char>) -> Seq<char> {
    "│ "@ + inner + " │"@
}

/// The top border of the terminal box.
pub open spec fn box_top() -> Seq<char> {
    "┌──────────────────────────────────────┐"@
}

/// A separator row of the terminal box.
pub open spec fn box_rule() -> Seq<char> {
    "├──────────────────────────────────────┤"@
}

/// The bottom border of the terminal box.
pub open spec fn box_bottom() -> Seq<char> {
    "└──────────────────────────────────────┘"@
}

/// The labels of a list of actions.
pub open spec fn labels_of(actions: Seq<Action>) -> Seq<Seq<char>> {
    actions.map_values(|a: Action| a.label@)
}

/// The rows printed for a notification when no desktop notifier is at hand:
/// the title centered, each body line padded, the button labels joined by
/// " | " and centered, all in a box.
pub open spec fn terminal_rows(title: Seq<char>, body: Seq<char>, actions: Seq<Action>) -> Seq<Seq<char>> {
    let head = seq![box_top(), boxed(centered_text(title, 38)), box_rule()];
    let rows = lines_of(body).map_values(|l: Seq<char>| boxed(padded_text(l, 38)));
    let buttons = if actions.len() == 0 {
        Seq::<Seq<char>>::empty()
    } else {
        seq![box_rule(), boxed(centered_text(join(labels_of(actions), " | "@), 38))]
    };
    head + rows + buttons + seq![box_bottom()]
}

fn boxed_row(inner: &[char]) -> (r: String)
    ensures
        r@ == boxed(inner@),
{
    let mut out: Vec<char> = Vec::new();
    append_str(&mut out, "│ ");
    append_chars(&mut out, inner);
    append_str(&mut out, " │");
    string_of(&out)
}

/// Pushes a string onto a list of strings.
fn push_row(rows: &mut Vec<String>, row: String)
    ensures
        final(rows)@ == old(rows)@.push(row),
{
    rows.push(row);
}

/// Whether the rows of a list are the given character sequences.
pub open spec fn rows_are(rows: Seq<String>, want: Seq<Seq<char>>) -> bool {
    rows.len() == want.len() && forall|i: int| 0 <= i < rows.len() ==> #[trigger] rows[i]@ == want[i]
}

impl Notification {
    /// The rows shown for this notification in a terminal.
    pub fn terminal_lines(&self) -> (r: Vec<String>)
        ensures
            rows_are(r@, terminal_rows(self.title@, self.body@, self.actions@)),
    {
        let ghost want = terminal_rows(self.title@, self.body@, self.actions@);
        let ghost head = seq![box_top(), boxed(centered_text(self.title@, 38)), box_rule()];
        let ghost body_rows = lines_of(self.body@).map_values(|l: Seq<char>| boxed(padded_text(l, 38)));
        let mut out: Vec<String> = Vec::new();
        push_row(&mut out, String::from_str("┌──────────────────────────────────────┐"));
        let title = chars_of(self.title.as_str());
        let t = centered_chars(&title, BOX_WIDTH);
        push_row(&mut out, boxed_row(&t));
        push_row(&mut out, String::from_str("├──────────────────────────────────────┤"));
        assert(rows_are(out@, head));
        let body = chars_of(self.body.as_str());
        let ls = lines(&body);
        let mut i: usize = 0;
        while i < ls.len()
            invariant
                0 <= i <= ls@.len(),
                ls@.len() == lines_of(self.body@).len(),
                forall|k: int| 0 <= k < ls@.len() ==> #[trigger] ls@[k]@ == lines_of(self.body@)[k],
                body_rows == lines_of(self.body@).map_values(|l: Seq<char>| boxed(padded_text(l, 38))),
                head == seq![box_top(), boxed(centered_text(self.title@, 38)), box_rule()],
                rows_are(out@, head + body_rows.take(i as int)),
            decreases ls@.len() - i,
        {
            let p = padded_chars(&ls[i], BOX_WIDTH);
            push_row(&mut out, boxed_row(&p));
            proof {
                assert(head + body_rows.take(i + 1) =~= (head + body_rows.take(i as int)).push(body_rows[i as int]));
            }
            i = i + 1;
        }
        assert(body_rows.take(ls@.len() as int) =~= body_rows);
        if self.actions.len() > 0 {
            push_row(&mut out, String::from_str("├──────────────────────────────────────┤"));
            let mut labels: Vec<Vec<char>> = Vec::new();
            let mut j: usize = 0;
            while j < self.actions.len()
                invariant
                    0 <= j <= self.actions@.len(),
                    labels@.len() == j,
                    forall|k: int| 0 <= k < j ==> #[trigger] labels@[k]@ == self.actions@[k].label@,
                decreases self.actions@.len() - j,
            {
                labels.push(chars_of(self.actions[j].label.as_str()));
                j = j + 1;
            }
            proof {
                assert(labels@.map_values(|p: Vec<char>| p@) =~= labels_of(self.actions@));
            }
            let sep = text(" | ");
            let joined = join_chars(&labels, &sep);
            let c = centered_chars(&joined, BOX_WIDTH);
            push_row(&mut out, boxed_row(&c));
        }
        push_row(&mut out, String::from_str("└──────────────────────────────────────┘"));
        proof {
            assert(rows_are(out@, want));
        }
        out
    }
}


/// The labels and ids of the actions, in order: label, id, label, id, ...
pub open spec fn action_words(actions: Seq<Action>) -> Seq<Seq<char>>
    decreases actions.len(),
{
    if actions.len() == 0 {
        Seq::<Seq<char>>::empty()
    } else {
        action_words(actions.drop_last()).push(actions.last().label@).push(actions.last().id@)
    }
}

/// The arguments handed to `notify-send` for a notification.
pub open spec fn notify_send_argv(title: Seq<char>, body: Seq<char>, actions: Seq<Action>) -> Seq<Seq<char>> {
    let base = seq!["-a"@, "Hope HAL"@, "-u"@, "normal"@, title, body];
    if actions.len() == 0 {
        base
    } else {
        base + seq!["-A"@, join(action_words(actions), ","@)]
    }
}

impl Notification {
    /// The command-line arguments for showing this notification with
    /// `notify-send`.
    pub fn notify_send_args(&self) -> (r: Vec<String>)
        ensures
            rows_are(r@, notify_send_argv(self.title@, self.body@, self.actions@)),
    {
        let mut out: Vec<String> = Vec::new();
        push_row(&mut out, String::from_str("-a"));
        push_row(&mut out, String::from_str("Hope HAL"));
        push_row(&mut out, String::from_str("-u"));
        push_row(&mut out, String::from_str("normal"));
        push_row(&mut out, self.title.clone());
        push_row(&mut out, self.body.clone());
        if self.actions.len() > 0 {
            let mut words: Vec<Vec<char>> = Vec::new();
            let mut j: usize = 0;
            while j < self.actions.len()
                invariant
                    0 <= j <= self.actions@.len(),
                    words@.map_values(|p: Vec<char>| p@) == action_words(self.actions@.take(j as int)),
                decreases self.actions@.len() - j,
            {
                let ghost before = words@;
                words.push(chars_of(self.actions[j].label.as_str()));
                words.push(chars_of(self.actions[j].id.as_str()));
                proof {
                    assert(self.actions@.take(j + 1).drop_last() =~= self.actions@.take(j as int));
                    assert(words@.map_values(|p: Vec<char>| p@) =~= before.map_values(|p: Vec<char>| p@)
                        .push(self.actions@[j as int].label@).push(self.actions@[j as int].id@));
                }
                j = j + 1;
            }
            assert(self.actions@.take(self.actions@.len() as int) =~= self.actions@);
            push_row(&mut out, String::from_str("-A"));
            let sep = text(",");
            let joined = join_chars(&words, &sep);
            push_row(&mut out, string_of(&joined));
        }
        proof {
            assert(rows_are(out@, notify_send_argv(self.title@, self.body@, self.actions@)));
        }
        out
    }
}

} // verus!
