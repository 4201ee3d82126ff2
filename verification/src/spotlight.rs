//! Universal search: the searchable settings, installed applications read
//! from desktop entries, and how a query is recognised as a command or a
//! calculation.

use vstd::prelude::*;
use crate::text::{
    append_str, chars_eq, chars_of, contains, contains_seq, has_char, is_prefix, lines, lines_of,
    lowercase, starts_with, string_of, to_lowercase, words, words_of,
};

verus! {

/// Category of a search result.
#[derive(Debug, Clone, Copy, PartialEq, Eq)]
pub enum SearchCategory {
    Application,
    File,
    Setting,
    Command,
    Calculation,
}

impl SearchCategory {
    /// The short name shown for the category.
    pub fn label(&self) -> (r: &'static str)
        ensures
            r@ == match self {
                SearchCategory::Application => "App"@,
                SearchCategory::File => "File"@,
                SearchCategory::Setting => "Setting"@,
                SearchCategory::Command => "Command"@,
                SearchCategory::Calculation => "Calc"@,
            },
    {
        match self {
            SearchCategory::Application => "App",
            SearchCategory::File => "File",
            SearchCategory::Setting => "Setting",
            SearchCategory::Command => "Command",
            SearchCategory::Calculation => "Calc",
        }
    }
}

/// A searchable system setting.
#[derive(Debug, Clone)]
pub struct SettingEntry {
    pub name: String,
    pub description: String,
    pub category: String,
    pub command: String,
}

/// An installed application.
#[derive(Debug, Clone)]
pub struct ApplicationEntry {
    pub name: String,
    pub executable: String,
    pub description: String,
}

/// The search index.
pub struct SearchIndex {
    pub applications: Vec<ApplicationEntry>,
    pub settings: Vec<SettingEntry>,
}

/// The searchable settings: name, description, category, command.
pub open spec fn settings_table() -> Seq<(Seq<char>, Seq<char>, Seq<char>, Seq<char>)> {
    seq![
        ("WiFi"@, "Configure wireless networks"@, "Network"@, "nmcli device wifi list"@),
        ("Bluetooth"@, "Manage Bluetooth devices"@, "Network"@, "bluetoothctl show"@),
        ("VPN"@, "VPN connections"@, "Network"@, "nmcli connection show"@),
        ("Display"@, "Screen resolution and brightness"@, "Display"@, "wlr-randr"@),
        ("Wallpaper"@, "Change desktop wallpaper"@, "Display"@, "swaymsg output * bg ~/Pictures/wallpaper.png fill"@),
        ("Audio"@, "Sound settings and volume"@, "Sound"@, "pavucontrol"@),
        ("Microphone"@, "Input device settings"@, "Sound"@, "pactl list sources"@),
        ("Power"@, "Power management and battery"@, "System"@, "powerprofilesctl get"@),
        ("Keyboard"@, "Keyboard layout and shortcuts"@, "System"@, "localectl status"@),
        ("Theme"@, "Change system theme"@, "Appearance"@, "gsettings get org.gnome.desktop.interface gtk-theme"@),
        ("Font"@, "System font settings"@, "Appearance"@, "gsettings get org.gnome.desktop.interface font-name"@),
        ("Users"@, "Manage user accounts"@, "System"@, "cat /etc/passwd"@),
        ("Firewall"@, "Network security rules"@, "Security"@, "ufw status"@),
        ("HAL"@, "Hardware Adaptation Layer status"@, "Hope OS"@, "systemctl status hope-hal"@),
        ("Shell"@, "Hope Shell compositor settings"@, "Hope OS"@, "hope-shell config"@),
    ]
}

/// A setting entry matches a row of the settings table.
pub open spec fn is_setting_row(e: SettingEntry, row: (Seq<char>, Seq<char>, Seq<char>, Seq<char>)) -> bool {
    &&& e.name@ == row.0
    &&& e.description@ == row.1
    &&& e.category@ == row.2
    &&& e.command@ == row.3
}

fn setting(name: &str, description: &str, category: &str, command: &str) -> (r: SettingEntry)
    ensures
        is_setting_row(r, (name@, description@, category@, command@)),
{
    SettingEntry {
        name: String::from_str(name),
        description: String::from_str(description),
        category: String::from_str(category),
        command: String::from_str(command),
    }
}

/// A group header line of a desktop entry, such as "[Desktop Entry]".
pub open spec fn is_group_header(line: Seq<char>) -> bool {
    line.len() > 0 && line[0] == '['
}

/// The header of the group that the lines following `lines` belong to: the
/// last header among them, if any.
pub open spec fn current_group(lines: Seq<Seq<char>>) -> Option<Seq<char>>
    decreases lines.len(),
{
    if lines.len() == 0 {
        None
    } else if is_group_header(lines.last()) {
        Some(lines.last())
    } else {
        current_group(lines.drop_last())
    }
}

/// The lines following `lines` belong to the main "[Desktop Entry]" group,
/// or come before any group header.
pub open spec fn in_main_group(lines: Seq<Seq<char>>) -> bool {
    current_group(lines) is None || current_group(lines) == Some("[Desktop Entry]"@)
}

/// The value of the last line of the main "[Desktop Entry]" group that
/// starts with `prefix`, without the prefix.
pub open spec fn main_value(lines: Seq<Seq<char>>, prefix: Seq<char>) -> Option<Seq<char>>
    decreases lines.len(),
{
    if lines.len() == 0 {
        None
    } else if in_main_group(lines.drop_last()) && is_prefix(prefix, lines.last()) {
        Some(lines.last().skip(prefix.len() as int))
    } else {
        main_value(lines.drop_last(), prefix)
    }
}

/// The application a desktop entry describes, read from its main
/// "[Desktop Entry]" group and any lines before the first group header
/// (action groups and others are ignored): the
/// last `Name=` and `Exec=` values there, which must both be present, and
/// the last `Comment=` value there (empty when absent).
pub open spec fn desktop_app(content: Seq<char>) -> Option<(Seq<char>, Seq<char>, Seq<char>)> {
    let ls = lines_of(content);
    match (main_value(ls, "Name="@), main_value(ls, "Exec="@)) {
        (Some(n), Some(e)) => Some((n, e, match main_value(ls, "Comment="@) {
            Some(c) => c,
            None => Seq::empty(),
        })),
        _ => None,
    }
}

/// The applications described by a list of desktop entries, in order.
pub open spec fn desktop_apps(contents: Seq<Seq<char>>) -> Seq<(Seq<char>, Seq<char>, Seq<char>)>
    decreases contents.len(),
{
    if contents.len() == 0 {
        Seq::empty()
    } else {
        let rest = desktop_apps(contents.drop_last());
        match desktop_app(contents.last()) {
            Some(a) => rest.push(a),
            None => rest,
        }
    }
}

/// An application entry holds the given name, executable and description.
pub open spec fn is_app(a: ApplicationEntry, v: (Seq<char>, Seq<char>, Seq<char>)) -> bool {
    a.name@ == v.0 && a.executable@ == v.1 && a.description@ == v.2
}

fn skip_chars(s: &[char], n: usize) -> (r: Vec<char>)
    requires
        n <= s@.len(),
    ensures
        r@ == s@.skip(n as int),
{
    let mut out: Vec<char> = Vec::new();
    let mut i = n;
    while i < s.len()
        invariant
            n <= i <= s@.len(),
            out@ == s@.subrange(n as int, i as int),
        decreases s@.len() - i,
    {
        out.push(s[i]);
        i = i + 1;
        assert(out@ =~= s@.subrange(n as int, i as int));
    }
    out
}

/// Strips `prefix` from `line` when the line starts with it.
fn strip_prefix(line: &[char], prefix: &[char]) -> (r: Option<Vec<char>>)
    ensures
        is_prefix(prefix@, line@) ==> (r matches Some(v) && v@ == line@.skip(prefix@.len() as int)),
        !is_prefix(prefix@, line@) ==> r is None,
{
    if starts_with(line, prefix) {
        Some(skip_chars(line, prefix.len()))
    } else {
        None
    }
}

impl SearchIndex {
    /// Builds the index from the contents of the desktop entries found on
    /// the system, and the searchable settings.
    pub fn build(desktop_files: &Vec<String>) -> (r: SearchIndex)
        ensures
            r.applications@.len() == desktop_apps(desktop_files@.map_values(|f: String| f@)).len(),
            forall|i: int| 0 <= i < r.applications@.len() ==> is_app(#[trigger] r.applications@[i],
                desktop_apps(desktop_files@.map_values(|f: String| f@))[i]),
            r.settings@.len() == settings_table().len(),
            forall|i: int| 0 <= i < r.settings@.len() ==> is_setting_row(#[trigger] r.settings@[i], settings_table()[i]),
    {
        let ghost contents = desktop_files@.map_values(|f: String| f@);
        let mut apps: Vec<ApplicationEntry> = Vec::new();
        let mut i: usize = 0;
        while i < desktop_files.len()
            invariant
                0 <= i <= desktop_files@.len(),
                contents == desktop_files@.map_values(|f: String| f@),
                apps@.len() == desktop_apps(contents.take(i as int)).len(),
                forall|k: int| 0 <= k < apps@.len() ==> is_app(#[trigger] apps@[k], desktop_apps(contents.take(i as int))[k]),
            decreases desktop_files@.len() - i,
        {
            proof {
                assert(contents.take(i + 1).drop_last() =~= contents.take(i as int));
                assert(contents.take(i + 1).last() == desktop_files@[i as int]@);
            }
            match Self::parse_desktop_file(desktop_files[i].as_str()) {
                Some(app) => apps.push(app),
                None => {},
            }
            i = i + 1;
        }
        assert(contents.take(desktop_files@.len() as int) =~= contents);
        SearchIndex { applications: apps, settings: Self::index_settings() }
    }

    /// The searchable system settings.
    pub fn index_settings() -> (r: Vec<SettingEntry>)
        ensures
            r@.len() == settings_table().len(),
            forall|i: int| 0 <= i < r@.len() ==> is_setting_row(#[trigger] r@[i], settings_table()[i]),
    {
        let mut out: Vec<SettingEntry> = Vec::new();
    out.push(setting("WiFi", "Configure wireless networks", "Network", "nmcli device wifi list"));
    out.push(setting("Bluetooth", "Manage Bluetooth devices", "Network", "bluetoothctl show"));
    out.push(setting("VPN", "VPN connections", "Network", "nmcli connection show"));
    out.push(setting("Display", "Screen resolution and brightness", "Display", "wlr-randr"));
    out.push(setting("Wallpaper", "Change desktop wallpaper", "Display", "swaymsg output * bg ~/Pictures/wallpaper.png fill"));
    out.push(setting("Audio", "Sound settings and volume", "Sound", "pavucontrol"));
    out.push(setting("Microphone", "Input device settings", "Sound", "pactl list sources"));
    out.push(setting("Power", "Power management and battery", "System", "powerprofilesctl get"));
    out.push(setting("Keyboard", "Keyboard layout and shortcuts", "System", "localectl status"));
    out.push(setting("Theme", "Change system theme", "Appearance", "gsettings get org.gnome.desktop.interface gtk-theme"));
    out.push(setting("Font", "System font settings", "Appearance", "gsettings get org.gnome.desktop.interface font-name"));
    out.push(setting("Users", "Manage user accounts", "System", "cat /etc/passwd"));
    out.push(setting("Firewall", "Network security rules", "Security", "ufw status"));
    out.push(setting("HAL", "Hardware Adaptation Layer status", "Hope OS", "systemctl status hope-hal"));
    out.push(setting("Shell", "Hope Shell compositor settings", "Hope OS", "hope-shell config"));
        out
    }

    /// Reads a desktop entry.
    pub fn parse_desktop_file(content: &str) -> (r: Option<ApplicationEntry>)
        ensures
            match desktop_app(content@) {
                Some(v) => r matches Some(a) && is_app(a, v),
                None => r is None,
            },
    {
        let text = chars_of(content);
        let ls = lines(&text);
        let ghost all = lines_of(content@);
        let pn = chars_of("Name=");
        let pe = chars_of("Exec=");
        let pc = chars_of("Comment=");
        let main_header = chars_of("[Desktop Entry]");
        let mut in_main = true;
        let mut name: Option<Vec<char>> = None;
        let mut exec: Option<Vec<char>> = None;
        let mut comment: Option<Vec<char>> = None;
        let mut i: usize = 0;
        while i < ls.len()
            invariant
                0 <= i <= ls@.len(),
                all == lines_of(content@),
                ls@.len() == all.len(),
                forall|k: int| 0 <= k < ls@.len() ==> #[trigger] ls@[k]@ == all[k],
                pn@ == "Name="@,
                pe@ == "Exec="@,
                pc@ == "Comment="@,
                main_header@ == "[Desktop Entry]"@,
                in_main == in_main_group(all.take(i as int)),
                opt_chars(name) == main_value(all.take(i as int), "Name="@),
                opt_chars(exec) == main_value(all.take(i as int), "Exec="@),
                opt_chars(comment) == main_value(all.take(i as int), "Comment="@),
            decreases ls@.len() - i,
        {
            proof {
                assert(all.take(i + 1).drop_last() =~= all.take(i as int));
                assert(all.take(i + 1).last() == all[i as int]);
            }
            let line = &ls[i];
            if in_main {
                match strip_prefix(line, &pn) {
                    Some(v) => { name = Some(v); },
                    None => {},
                }
                match strip_prefix(line, &pe) {
                    Some(v) => { exec = Some(v); },
                    None => {},
                }
                match strip_prefix(line, &pc) {
                    Some(v) => { comment = Some(v); },
                    None => {},
                }
            }
            if line.len() > 0 && line[0] == '[' {
                in_main = chars_eq(line, &main_header);
            }
            i = i + 1;
        }
        assert(all.take(ls@.len() as int) =~= all);
        match (name, exec) {
            (Some(n), Some(e)) => {
                let description = match comment {
                    Some(c) => string_of(&c),
                    None => String::new(),
                };
                Some(ApplicationEntry { name: string_of(&n), executable: string_of(&e), description })
            },
            _ => None,
        }
    }
}

/// The characters held by an optional vector.
pub open spec fn opt_chars(o: Option<Vec<char>>) -> Option<Seq<char>> {
    match o {
        Some(v) => Some(v@),
        None => None,
    }
}

/// Whether a text looks like a calculation: it holds a digit and one of the
/// characters `+ - * /`.
pub open spec fn looks_like_calculation(s: Seq<char>) -> bool {
    &&& exists|i: int| 0 <= i < s.len() && '0' <= #[trigger] s[i] <= '9'
    &&& exists|i: int| 0 <= i < s.len() && is_operator_char(#[trigger] s[i])
}

/// One of the characters `+ - * /`.
pub open spec fn is_operator_char(c: char) -> bool {
    c == '+' || c == '-' || c == '*' || c == '/'
}

/// The commands recognised at the start of a query.
pub open spec fn command_words() -> Seq<Seq<char>> {
    seq!["ls"@, "cat"@, "echo"@, "grep"@, "find"@, "cd"@, "mkdir"@, "rm"@, "cp"@, "mv"@, "sudo"@, "apt"@, "dnf"@, "pacman"@, "systemctl"@, "git"@, "docker"@, "curl"@, "wget"@, "ssh"@, "ping"@]
}

/// The first word of a text, or the empty text when it has none.
pub open spec fn first_word(s: Seq<char>) -> Seq<char> {
    if words_of(s).len() > 0 {
        words_of(s)[0]
    } else {
        Seq::empty()
    }
}

/// Whether a text looks like a shell command: its first word is a
/// recognised command.
pub open spec fn looks_like_command(s: Seq<char>) -> bool {
    command_words().contains(first_word(s))
}

fn command_word(i: usize) -> (r: &'static str)
    requires
        i < 21,
    ensures
        r@ == command_words()[i as int],
{
    if i == 0 {
        "ls"
    } else if i == 1 {
        "cat"
    } else if i == 2 {
        "echo"
    } else if i == 3 {
        "grep"
    } else if i == 4 {
        "find"
    } else if i == 5 {
        "cd"
    } else if i == 6 {
        "mkdir"
    } else if i == 7 {
        "rm"
    } else if i == 8 {
        "cp"
    } else if i == 9 {
        "mv"
    } else if i == 10 {
        "sudo"
    } else if i == 11 {
        "apt"
    } else if i == 12 {
        "dnf"
    } else if i == 13 {
        "pacman"
    } else if i == 14 {
        "systemctl"
    } else if i == 15 {
        "git"
    } else if i == 16 {
        "docker"
    } else if i == 17 {
        "curl"
    } else if i == 18 {
        "wget"
    } else if i == 19 {
        "ssh"
    } else {
        "ping"
    }
}

/// An arithmetic operator of a calculation.
#[derive(Debug, Clone, Copy, PartialEq, Eq)]
pub enum CalcOp {
    Add,
    Sub,
    Mul,
    Div,
}

/// The operator a word stands for: `+`, `-`, `*` or `x` or `×`, `/` or `÷`.
pub open spec fn calc_op(w: Seq<char>) -> Option<CalcOp> {
    if w == seq!['+'] {
        Some(CalcOp::Add)
    } else if w == seq!['-'] {
        Some(CalcOp::Sub)
    } else if w == seq!['*'] || w == seq!['x'] || w == seq!['\u{d7}'] {
        Some(CalcOp::Mul)
    } else if w == seq!['/'] || w == seq!['\u{f7}'] {
        Some(CalcOp::Div)
    } else {
        None
    }
}

/// A calculation written as three words: operand, operator, operand.
#[derive(Debug, Clone)]
pub struct Calculation {
    pub lhs: String,
    pub op: CalcOp,
    pub rhs: String,
}

fn single(c: char) -> (r: Vec<char>)
    ensures
        r@ == seq![c],
{
    let mut v: Vec<char> = Vec::new();
    v.push(c);
    v
}

fn calc_op_exec(w: &[char]) -> (r: Option<CalcOp>)
    ensures
        r == calc_op(w@),
{
    if chars_eq(w, &single('+')) {
        Some(CalcOp::Add)
    } else if chars_eq(w, &single('-')) {
        Some(CalcOp::Sub)
    } else if chars_eq(w, &single('*')) || chars_eq(w, &single('x')) || chars_eq(w, &single('\u{d7}')) {
        Some(CalcOp::Mul)
    } else if chars_eq(w, &single('/')) || chars_eq(w, &single('\u{f7}')) {
        Some(CalcOp::Div)
    } else {
        None
    }
}

/// The first position, from `j` on, where `ch` occurs in `c`.
pub open spec fn first_from(c: Seq<char>, ch: char, j: int) -> Option<int>
    decreases c.len() - j,
{
    if j < 0 || j >= c.len() {
        None
    } else if c[j] == ch {
        Some(j)
    } else {
        first_from(c, ch, j + 1)
    }
}

/// How many characters of `q` are found in `c` in order, each searched for
/// after the previous one found, starting at position `j`; none where the
/// search would cut the text inside a character (after finding a
/// multi-byte character that is not the last one searched for).
pub open spec fn chars_in_order(c: Seq<char>, q: Seq<char>, j: int) -> Option<nat>
    decreases q.len(),
{
    if q.len() == 0 {
        Some(0)
    } else {
        match first_from(c, q[0], j) {
            None => chars_in_order(c, q.drop_first(), j),
            Some(t) => if (q[0] as u32) < 128 {
                match chars_in_order(c, q.drop_first(), t + 1) {
                    Some(n) => Some(n + 1),
                    None => None,
                }
            } else if q.len() == 1 {
                Some(1)
            } else {
                None
            },
        }
    }
}

/// The first occurrence of `ch` from `j` on lies at or after `j`, inside
/// `c`, and holds `ch`.
proof fn lemma_first_from(c: Seq<char>, ch: char, j: int)
    ensures
        first_from(c, ch, j) matches Some(t) ==> 0 <= j <= t < c.len() && c[t] == ch,
    decreases c.len() - j,
{
    if 0 <= j < c.len() && c[j] != ch {
        lemma_first_from(c, ch, j + 1);
    }
}

/// A matching of `n` characters of `q` to characters of `c`, from position
/// `j` on: `ps` are their positions in `c` and `ks` their positions in `q`,
/// both strictly increasing, and each pair holds the same character.
pub open spec fn in_order_match(c: Seq<char>, q: Seq<char>, j: int, n: nat, ps: Seq<int>, ks: Seq<int>) -> bool {
    &&& ps.len() == n
    &&& ks.len() == n
    &&& forall|i: int| 0 <= i < n ==> j <= #[trigger] ps[i] < c.len() && 0 <= ks[i] < q.len() && c[ps[i]] == q[ks[i]]
    &&& forall|a: int, b: int| 0 <= a < b < n ==> #[trigger] ps[a] < #[trigger] ps[b] && ks[a] < ks[b]
}

/// Strictly increasing positions from `j` on, below `hi`, number at most
/// `hi - j`.
proof fn lemma_increasing_positions(ps: Seq<int>, j: int, hi: int)
    requires
        forall|i: int| 0 <= i < ps.len() ==> j <= #[trigger] ps[i] < hi,
        forall|a: int, b: int| 0 <= a < b < ps.len() ==> #[trigger] ps[a] < #[trigger] ps[b],
    ensures
        ps.len() == 0 || j + ps.len() <= hi,
    decreases ps.len(),
{
    if ps.len() > 1 {
        let init = ps.drop_last();
        assert forall|a: int, b: int| 0 <= a < b < init.len() implies #[trigger] init[a] < #[trigger] init[b] by {
            assert(ps[a] < ps[b]);
        }
        assert forall|i: int| 0 <= i < init.len() implies j <= #[trigger] init[i] < ps.last() by {
            assert(ps[i] < ps[ps.len() - 1]);
        }
        lemma_increasing_positions(init, j, ps.last());
        assert(ps[ps.len() - 1] < hi);
    } else if ps.len() == 1 {
        assert(j <= ps[0] < hi);
    }
}

/// The characters counted in order are found at distinct, strictly
/// increasing positions of the candidate, each after the previous one
/// found, and match distinct query characters in query order: the returned
/// positions witness the count. So a character counted twice must occur
/// twice, and the count is at most the query's length and at most the
/// number of candidate positions from `j` on.
pub proof fn law_chars_in_order(c: Seq<char>, q: Seq<char>, j: int) -> (w: (Seq<int>, Seq<int>))
    requires
        0 <= j,
        chars_in_order(c, q, j) is Some,
    ensures
        in_order_match(c, q, j, chars_in_order(c, q, j)->0, w.0, w.1),
        chars_in_order(c, q, j)->0 <= q.len(),
        chars_in_order(c, q, j)->0 == 0 || j + chars_in_order(c, q, j)->0 <= c.len(),
{
    let w = lemma_chars_in_order_witness(c, q, j);
    lemma_increasing_positions(w.0, j, c.len() as int);
    w
}

/// The witnessing positions of a count of characters found in order.
proof fn lemma_chars_in_order_witness(c: Seq<char>, q: Seq<char>, j: int) -> (w: (Seq<int>, Seq<int>))
    requires
        0 <= j,
        chars_in_order(c, q, j) is Some,
    ensures
        in_order_match(c, q, j, chars_in_order(c, q, j)->0, w.0, w.1),
        chars_in_order(c, q, j)->0 <= q.len(),
    decreases q.len(),
{
    if q.len() == 0 {
        (Seq::empty(), Seq::empty())
    } else {
        let rest = q.drop_first();
        lemma_first_from(c, q[0], j);
        match first_from(c, q[0], j) {
            None => {
                let (ps, ks) = lemma_chars_in_order_witness(c, rest, j);
                let ks2 = ks.map_values(|k: int| k + 1);
                let n = chars_in_order(c, q, j)->0;
                assert(n == chars_in_order(c, rest, j)->0);
                assert forall|i: int| 0 <= i < n implies j <= #[trigger] ps[i] < c.len() && 0 <= ks2[i] < q.len()
                    && c[ps[i]] == q[ks2[i]] by {
                    assert(j <= ps[i] < c.len() && 0 <= ks[i] < rest.len() && c[ps[i]] == rest[ks[i]]);
                    assert(rest[ks[i]] == q[ks[i] + 1]);
                }
                assert forall|a: int, b: int| 0 <= a < b < n implies #[trigger] ps[a] < #[trigger] ps[b] && ks2[a] < ks2[b] by {
                    assert(ps[a] < ps[b] && ks[a] < ks[b]);
                }
                (ps, ks2)
            },
            Some(t) => {
                if (q[0] as u32) < 128 {
                    let (ps, ks) = lemma_chars_in_order_witness(c, rest, t + 1);
                    let m = chars_in_order(c, rest, t + 1)->0;
                    let n = chars_in_order(c, q, j)->0;
                    assert(n == m + 1);
                    let ps2 = seq![t] + ps;
                    let ks2 = seq![0int] + ks.map_values(|k: int| k + 1);
                    assert forall|i: int| 0 <= i < n implies j <= #[trigger] ps2[i] < c.len() && 0 <= ks2[i] < q.len()
                        && c[ps2[i]] == q[ks2[i]] by {
                        if i > 0 {
                            assert(ps2[i] == ps[i - 1]);
                            assert(ks2[i] == ks[i - 1] + 1);
                            assert(rest[ks[i - 1]] == q[ks[i - 1] + 1]);
                        }
                    }
                    assert forall|a: int, b: int| 0 <= a < b < n implies #[trigger] ps2[a] < #[trigger] ps2[b] && ks2[a] < ks2[b] by {
                        assert(ps2[b] == ps[b - 1]);
                        assert(ks2[b] == ks[b - 1] + 1);
                        if a > 0 {
                            assert(ps2[a] == ps[a - 1]);
                            assert(ks2[a] == ks[a - 1] + 1);
                            assert(ps[a - 1] < ps[b - 1]);
                        } else {
                            assert(t + 1 <= ps[b - 1]);
                        }
                    }
                    (ps2, ks2)
                } else {
                    let ps2 = seq![t];
                    let ks2 = seq![0int];
                    (ps2, ks2)
                }
            },
        }
    }
}

/// The operator characters of a calculation are exactly '+', '-', '*' and
/// '/': a text is a calculation exactly when it holds a decimal digit and
/// one of these four characters.
pub proof fn law_calculation_chars(s: Seq<char>)
    ensures
        looks_like_calculation(s) <==> (
            (exists|i: int| 0 <= i < s.len() && '0' <= #[trigger] s[i] <= '9')
            && (exists|k: int| 0 <= k < s.len() && (s[k] == '+' || s[k] == '-' || s[k] == '*' || #[trigger] s[k] == '/'))),
{
}

/// Each operator word stands for its own operation: "+" alone for
/// addition, "-" alone for subtraction, "*", "x" and "×" for
/// multiplication, "/" and "÷" for division, and no other word for any.
pub proof fn law_calc_ops(w: Seq<char>)
    ensures
        calc_op(w) == Some(CalcOp::Add) <==> w == seq!['+'],
        calc_op(w) == Some(CalcOp::Sub) <==> w == seq!['-'],
        calc_op(w) == Some(CalcOp::Mul) <==> (w == seq!['*'] || w == seq!['x'] || w == seq!['\u{d7}']),
        calc_op(w) == Some(CalcOp::Div) <==> (w == seq!['/'] || w == seq!['\u{f7}']),
        calc_op(w) is None <==> !(w == seq!['+'] || w == seq!['-'] || w == seq!['*'] || w == seq!['x']
            || w == seq!['\u{d7}'] || w == seq!['/'] || w == seq!['\u{f7}']),
{
    assert forall|ch: char| #[trigger] seq![ch] == w <==> (w.len() == 1 && w[0] == ch) by {
        if w.len() == 1 && w[0] == ch {
            assert(w =~= seq![ch]);
        }
        if seq![ch] == w {
            assert(w[0] == seq![ch][0]);
        }
    }
    assert(seq!['+'] == w <==> (w.len() == 1 && w[0] == '+'));
    assert(seq!['-'] == w <==> (w.len() == 1 && w[0] == '-'));
    assert(seq!['*'] == w <==> (w.len() == 1 && w[0] == '*'));
    assert(seq!['x'] == w <==> (w.len() == 1 && w[0] == 'x'));
    assert(seq!['\u{d7}'] == w <==> (w.len() == 1 && w[0] == '\u{d7}'));
    assert(seq!['/'] == w <==> (w.len() == 1 && w[0] == '/'));
    assert(seq!['\u{f7}'] == w <==> (w.len() == 1 && w[0] == '\u{f7}'));
}

/// How well a candidate matches a query.
#[derive(Debug, Clone, Copy, PartialEq, Eq)]
pub enum MatchScore {
    /// The lower-cased candidate is the query.
    Exact,
    /// The lower-cased candidate starts with the query.
    Prefix,
    /// The lower-cased candidate contains the query.
    Contains,
    /// `matched` of the query's characters are found in order; the query is
    /// `query_len` bytes long.
    Chars { matched: usize, query_len: usize },
}

/// How a lower-cased candidate matches a query, when it is defined.
pub open spec fn match_score(cand: Seq<char>, query: Seq<char>) -> Option<MatchScore> {
    if cand == query {
        Some(MatchScore::Exact)
    } else if is_prefix(query, cand) {
        Some(MatchScore::Prefix)
    } else if contains_seq(cand, query) {
        Some(MatchScore::Contains)
    } else {
        match chars_in_order(cand, query, 0) {
            Some(n) => Some(MatchScore::Chars { matched: n as usize, query_len: vstd::utf8::encode_utf8(query).len() as usize }),
            None => None,
        }
    }
}

fn first_from_exec(c: &[char], ch: char, j: usize) -> (r: Option<usize>)
    ensures
        match r {
            Some(t) => first_from(c@, ch, j as int) == Some(t as int) && t < c@.len(),
            None => first_from(c@, ch, j as int) is None,
        },
{
    let mut t = j;
    while t < c.len()
        invariant
            j <= t,
            first_from(c@, ch, j as int) == first_from(c@, ch, t as int),
        decreases c@.len() - t,
    {
        if c[t] == ch {
            return Some(t);
        }
        t = t + 1;
    }
    None
}

fn chars_in_order_exec(c: &[char], q: &[char]) -> (r: Option<usize>)
    ensures
        match chars_in_order(c@, q@, 0) {
            Some(n) => r == Some(n as usize),
            None => r is None,
        },
{
    let mut j: usize = 0;
    let mut count: usize = 0;
    let mut k: usize = 0;
    let clen = c.len();
    assert(q@.skip(0) =~= q@);
    while k < q.len()
        invariant
            clen == c@.len(),
            0 <= k <= q@.len(),
            j <= c@.len(),
            count <= k,
            chars_in_order(c@, q@, 0) == match chars_in_order(c@, q@.skip(k as int), j as int) {
                Some(n) => Some((n + count) as nat),
                None => None,
            },
        decreases q@.len() - k,
    {
        let ch = q[k];
        proof {
            assert(q@.skip(k as int).drop_first() =~= q@.skip(k + 1));
            assert(q@.skip(k as int)[0] == ch);
        }
        let ghost rest = q@.skip(k as int);
        let ghost old_j = j;
        let ghost old_count = count;
        match first_from_exec(c, ch, j) {
            None => {
                assert(chars_in_order(c@, rest, old_j as int) == chars_in_order(c@, q@.skip(k + 1), old_j as int));
            },
            Some(t) => {
                if (ch as u32) < 128 {
                    assert(chars_in_order(c@, rest, old_j as int) == match chars_in_order(c@, q@.skip(k + 1), t + 1) {
                        Some(n) => Some(n + 1),
                        None => None,
                    });
                    count = count + 1;
                    j = t + 1;
                } else if k + 1 == q.len() {
                    proof {
                        assert(q@.skip(k as int).len() == 1);
                    }
                    return Some(count + 1);
                } else {
                    return None;
                }
            },
        }
        k = k + 1;
    }
    proof {
        assert(q@.skip(k as int).len() == 0);
    }
    Some(count)
}

/// Whether matching a candidate against a query is defined (the search
/// never cuts the candidate inside a character).
pub open spec fn match_defined(candidate: Seq<char>, query: Seq<char>) -> bool {
    match_score(lowercase(candidate), query) is Some
}

fn match_score_lowered(cand: &[char], q: &[char], query_bytes: usize) -> (r: Option<MatchScore>)
    requires
        query_bytes == vstd::utf8::encode_utf8(q@).len() as usize,
    ensures
        r == match_score(cand@, q@),
{
    if chars_eq(cand, q) {
        Some(MatchScore::Exact)
    } else if starts_with(cand, q) {
        Some(MatchScore::Prefix)
    } else if contains(cand, q) {
        Some(MatchScore::Contains)
    } else {
        match chars_in_order_exec(cand, q) {
            Some(n) => Some(MatchScore::Chars { matched: n, query_len: query_bytes }),
            None => None,
        }
    }
}

/// Whether `fuzzy_match` is defined for a candidate and a lower-cased query.
pub fn fuzzy_match_defined(candidate: &str, query_lower: &str) -> (r: bool)
    ensures
        r == match_defined(candidate@, query_lower@),
{
    let c = chars_of(candidate);
    let cl = to_lowercase(&c);
    let q = chars_of(query_lower);
    match_score_lowered(&cl, &q, query_lower.len()).is_some()
}

/// How a candidate matches a lower-cased query: the candidate is
/// lower-cased, then compared whole, as a prefix, as containing the query,
/// and last by the query's characters found in order.
pub fn fuzzy_match(candidate: &str, query_lower: &str) -> (r: MatchScore)
    requires
        match_defined(candidate@, query_lower@),
    ensures
        match_score(lowercase(candidate@), query_lower@) == Some(r),
{
    let c = chars_of(candidate);
    let cl = to_lowercase(&c);
    let q = chars_of(query_lower);
    match match_score_lowered(&cl, &q, query_lower.len()) {
        Some(m) => m,
        None => MatchScore::Exact,
    }
}

/// How a candidate matches a lower-cased query, when matching is defined for
/// them (its scan only cuts the candidate at character boundaries); none
/// otherwise.
pub fn fuzzy_match_checked(candidate: &str, query_lower: &str) -> (r: Option<MatchScore>)
    ensures
        r == match_score(lowercase(candidate@), query_lower@),
        r is Some <==> match_defined(candidate@, query_lower@),
{
    if fuzzy_match_defined(candidate, query_lower) {
        Some(fuzzy_match(candidate, query_lower))
    } else {
        None
    }
}

impl SearchIndex {
    /// Whether the input looks like a calculation.
    pub fn is_calculation(&self, input: &str) -> (r: bool)
        ensures
            r == looks_like_calculation(input@),
    {
        let s = chars_of(input);
        let mut digit = false;
        let mut op = false;
        let mut i: usize = 0;
        while i < s.len()
            invariant
                0 <= i <= s@.len(),
                s@ == input@,
                digit == exists|k: int| 0 <= k < i && '0' <= #[trigger] s@[k] <= '9',
                op == exists|k: int| 0 <= k < i && is_operator_char(#[trigger] s@[k]),
            decreases s@.len() - i,
        {
            let c = s[i];
            if '0' <= c && c <= '9' {
                digit = true;
            }
            if c == '+' || c == '-' || c == '*' || c == '/' {
                op = true;
            }
            i = i + 1;
        }
        digit && op
    }

    /// Whether the input looks like a shell command.
    pub fn is_command(&self, input: &str) -> (r: bool)
        ensures
            r == looks_like_command(input@),
    {
        let s = chars_of(input);
        let ws = words(&s);
        let first: Vec<char> = if ws.len() > 0 {
            ws[0].clone()
        } else {
            Vec::new()
        };
        assert(first@ == first_word(input@));
        let mut i: usize = 0;
        while i < 21
            invariant
                0 <= i <= 21,
                first@ == first_word(input@),
                command_words().len() == 21,
                forall|k: int| 0 <= k < i ==> command_words()[k] != first_word(input@),
            decreases 21 - i,
        {
            let w = chars_of(command_word(i));
            if chars_eq(&w, &first) {
                return true;
            }
            i = i + 1;
        }
        false
    }

    /// Reads a query as a calculation: exactly three words, the middle one
    /// an operator.
    pub fn parse_calculation(&self, expr: &str) -> (r: Option<Calculation>)
        ensures
            words_of(expr@).len() == 3 && calc_op(words_of(expr@)[1]) is Some <==> r is Some,
            r matches Some(c) ==> c.lhs@ == words_of(expr@)[0] && c.rhs@ == words_of(expr@)[2]
                && Some(c.op) == calc_op(words_of(expr@)[1]),
    {
        let s = chars_of(expr);
        let ws = words(&s);
        if ws.len() != 3 {
            return None;
        }
        match calc_op_exec(&ws[1]) {
            Some(op) => Some(Calculation { lhs: string_of(&ws[0]), op, rhs: string_of(&ws[2]) }),
            None => None,
        }
    }
}

/// The subtitle shown for a setting: its category in brackets, then its
/// description.
pub fn setting_subtitle(setting: &SettingEntry) -> (r: String)
    ensures
        r@ == "["@ + setting.category@ + "] "@ + setting.description@,
{
    let mut out: Vec<char> = Vec::new();
    append_str(&mut out, "[");
    append_str(&mut out, setting.category.as_str());
    append_str(&mut out, "] ");
    append_str(&mut out, setting.description.as_str());
    string_of(&out)
}

} // verus!
