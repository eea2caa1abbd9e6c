//! Settings: shortcut validation, hotkey parsing and the configuration
//! file's line format.
//!
//! The settings window keeps a save path and two keyboard shortcuts in a
//! three-line configuration file. The logic here validates shortcut
//! strings, parses a shortcut into a modifier and key, splices an updated
//! value into the file's content and reads the three values back with
//! their defaults; reading and writing the file itself happens outside.

use vstd::prelude::*;

verus! {

/// The verdict on a pair of shortcut strings.
#[derive(Clone, Copy, PartialEq, Eq, Structural, Debug)]
pub enum ShortcutValidation {
    Valid,
    Invalid,
    Incomplete,
    Same,
}

/// The prefix every shortcut must carry.
pub open spec fn ctrl_prefix() -> Seq<char> {
    "ctrl +"@
}

/// The verdict on two shortcut strings: empty or wrongly prefixed ones are
/// invalid, identical ones clash, ones that stop right after the prefix
/// are incomplete, anything else passes.
pub open spec fn validation_spec(bg: Seq<char>, fs: Seq<char>) -> ShortcutValidation {
    if bg.len() == 0 || fs.len() == 0 {
        ShortcutValidation::Invalid
    } else if bg == fs {
        ShortcutValidation::Same
    } else if !(bg.len() >= 6 && bg.take(6) == ctrl_prefix()) || !(fs.len() >= 6 && fs.take(6)
        == ctrl_prefix()) {
        ShortcutValidation::Invalid
    } else if bg.len() == 6 || fs.len() == 6 {
        ShortcutValidation::Incomplete
    } else {
        ShortcutValidation::Valid
    }
}

/// Whether two strings hold the same characters.
fn str_eq(a: &str, b: &str) -> (r: bool)
    ensures
        r == (a@ == b@),
{
    let la = a.unicode_len();
    let lb = b.unicode_len();
    if la != lb {
        proof {
            assert(a@ != b@);
        }
        return false;
    }
    let mut i: usize = 0;
    while i < la
        invariant
            i <= la,
            la == a@.len(),
            lb == b@.len(),
            la == lb,
            forall|j: int| 0 <= j < i ==> a@[j] == b@[j],
        decreases la - i,
    {
        if a.get_char(i) != b.get_char(i) {
            return false;
        }
        i = i + 1;
    }
    proof {
        assert(a@ =~= b@);
    }
    true
}

/// Whether the first six characters of `s` spell the required prefix.
fn has_ctrl_prefix(s: &String) -> (r: bool)
    ensures
        r == (s@.len() >= 6 && s@.take(6) == ctrl_prefix()),
{
    proof {
        reveal_strlit("ctrl +");
    }
    let n = s.as_str().unicode_len();
    if n < 6 {
        return false;
    }
    let ok = s.as_str().get_char(0) == 'c' && s.as_str().get_char(1) == 't' && s.as_str().get_char(
        2,
    ) == 'r' && s.as_str().get_char(3) == 'l' && s.as_str().get_char(4) == ' '
        && s.as_str().get_char(5) == '+';
    proof {
        if ok {
            assert(s@.take(6) =~= ctrl_prefix());
        } else {
            assert(s@.take(6)[0] == s@[0] && s@.take(6)[1] == s@[1] && s@.take(6)[2] == s@[2]
                && s@.take(6)[3] == s@[3] && s@.take(6)[4] == s@[4] && s@.take(6)[5] == s@[5]);
        }
    }
    ok
}

/// Judges a pair of shortcut strings as the settings window does.
pub fn validate_shortcuts(bg_shortcut: &String, fs_shortcut: &String) -> (r: ShortcutValidation)
    ensures
        r == validation_spec(bg_shortcut@, fs_shortcut@),
{
    if bg_shortcut.as_str().is_empty() || fs_shortcut.as_str().is_empty() {
        ShortcutValidation::Invalid
    } else if str_eq(bg_shortcut.as_str(), fs_shortcut.as_str()) {
        ShortcutValidation::Same
    } else if !has_ctrl_prefix(bg_shortcut) || !has_ctrl_prefix(fs_shortcut) {
        ShortcutValidation::Invalid
    } else if bg_shortcut.as_str().unicode_len() == 6 || fs_shortcut.as_str().unicode_len() == 6 {
        ShortcutValidation::Incomplete
    } else {
        ShortcutValidation::Valid
    }
}

/// The modifier of a global hotkey. Every recognized shortcut uses the
/// control key.
#[derive(Clone, Copy, PartialEq, Eq, Structural, Debug)]
pub enum Modifier {
    Control,
}

/// The key of a global hotkey: a letter or a digit.
#[derive(Clone, Copy, PartialEq, Eq, Structural, Debug)]
pub enum Key {
    A,
    B,
    C,
    D,
    E,
    F,
    G,
    H,
    I,
    J,
    K,
    L,
    M,
    N,
    O,
    P,
    Q,
    R,
    S,
    T,
    U,
    V,
    W,
    X,
    Y,
    Z,
    Digit0,
    Digit1,
    Digit2,
    Digit3,
    Digit4,
    Digit5,
    Digit6,
    Digit7,
    Digit8,
    Digit9,
}

/// The first position at or after `from` where `c` occurs in `s`, or the
/// length of `s` when it does not.
pub open spec fn find_char(s: Seq<char>, c: char, from: int) -> int
    decreases s.len() - from,
{
    if from < 0 || from >= s.len() {
        s.len() as int
    } else if s[from] == c {
        from
    } else {
        find_char(s, c, from + 1)
    }
}

/// The sequence with leading and trailing spaces removed.
pub open spec fn trim_spec(s: Seq<char>) -> Seq<char>
    decreases s.len(),
{
    if s.len() > 0 && s[0] == ' ' {
        trim_spec(s.drop_first())
    } else if s.len() > 0 && s.last() == ' ' {
        trim_spec(s.drop_last())
    } else {
        s
    }
}

/// The key a single character names; anything unrecognized falls back to
/// the default key.
pub open spec fn key_of_char(c: char) -> Key {
    if c == 'a' || c == 'A' {
        Key::A
    } else if c == 'b' || c == 'B' {
        Key::B
    } else if c == 'c' || c == 'C' {
        Key::C
    } else if c == 'd' || c == 'D' {
        Key::D
    } else if c == 'e' || c == 'E' {
        Key::E
    } else if c == 'f' || c == 'F' {
        Key::F
    } else if c == 'g' || c == 'G' {
        Key::G
    } else if c == 'h' || c == 'H' {
        Key::H
    } else if c == 'i' || c == 'I' {
        Key::I
    } else if c == 'j' || c == 'J' {
        Key::J
    } else if c == 'k' || c == 'K' {
        Key::K
    } else if c == 'l' || c == 'L' {
        Key::L
    } else if c == 'm' || c == 'M' {
        Key::M
    } else if c == 'n' || c == 'N' {
        Key::N
    } else if c == 'o' || c == 'O' {
        Key::O
    } else if c == 'p' || c == 'P' {
        Key::P
    } else if c == 'q' || c == 'Q' {
        Key::Q
    } else if c == 'r' || c == 'R' {
        Key::R
    } else if c == 's' || c == 'S' {
        Key::S
    } else if c == 't' || c == 'T' {
        Key::T
    } else if c == 'u' || c == 'U' {
        Key::U
    } else if c == 'v' || c == 'V' {
        Key::V
    } else if c == 'w' || c == 'W' {
        Key::W
    } else if c == 'x' || c == 'X' {
        Key::X
    } else if c == 'y' || c == 'Y' {
        Key::Y
    } else if c == 'z' || c == 'Z' {
        Key::Z
    } else if c == '0' {
        Key::Digit0
    } else if c == '1' {
        Key::Digit1
    } else if c == '2' {
        Key::Digit2
    } else if c == '3' {
        Key::Digit3
    } else if c == '4' {
        Key::Digit4
    } else if c == '5' {
        Key::Digit5
    } else if c == '6' {
        Key::Digit6
    } else if c == '7' {
        Key::Digit7
    } else if c == '8' {
        Key::Digit8
    } else if c == '9' {
        Key::Digit9
    } else {
        Key::K
    }
}

/// The key a trimmed token names: a single recognized character, or the
/// default key for anything else.
pub open spec fn key_of_token(tok: Seq<char>) -> Key {
    if tok.len() == 1 {
        key_of_char(tok[0])
    } else {
        Key::K
    }
}

/// What a shortcut string parses to: `None` without a `+` separator,
/// otherwise the control modifier and the key named by the trimmed token
/// between the first and second `+`.
pub open spec fn parse_hotkey_spec(s: Seq<char>) -> Option<(Modifier, Key)> {
    let i = find_char(s, '+', 0);
    if i >= s.len() {
        None
    } else {
        let j = find_char(s, '+', i + 1);
        Some((Modifier::Control, key_of_token(trim_spec(s.subrange(i + 1, j)))))
    }
}

/// The first position at or after `from` where `c` occurs, or the length.
fn find_char_exec(s: &str, c: char, from: usize) -> (r: usize)
    requires
        from <= s@.len(),
    ensures
        r == find_char(s@, c, from as int),
        from <= r <= s@.len(),
{
    let n = s.unicode_len();
    let mut i = from;
    while i < n
        invariant
            from <= i <= n,
            n == s@.len(),
            find_char(s@, c, from as int) == find_char(s@, c, i as int),
        decreases n - i,
    {
        if s.get_char(i) == c {
            return i;
        }
        i = i + 1;
    }
    n
}

/// Parses a shortcut string into its modifier and key.
pub fn parse_hotkey(shortcut_string: &String) -> (r: Option<(Modifier, Key)>)
    ensures
        r == parse_hotkey_spec(shortcut_string@),
{
    let s = shortcut_string.as_str();
    let n = s.unicode_len();
    let i = find_char_exec(s, '+', 0);
    if i >= n {
        return None;
    }
    let j = find_char_exec(s, '+', i + 1);
    let token = s.substring_char(i + 1, j);
    let mut lo: usize = 0;
    let mut hi: usize = token.unicode_len();
    proof {
        assert(token@.subrange(0, token@.len() as int) =~= token@);
    }
    while lo < hi && token.get_char(lo) == ' '
        invariant
            0 <= lo <= hi <= token@.len(),
            trim_spec(token@) == trim_spec(token@.subrange(lo as int, hi as int)),
        decreases hi - lo,
    {
        proof {
            assert(token@.subrange(lo as int, hi as int).drop_first() =~= token@.subrange(
                lo + 1,
                hi as int,
            ));
        }
        lo = lo + 1;
    }
    while lo < hi && token.get_char(hi - 1) == ' '
        invariant
            0 <= lo <= hi <= token@.len(),
            trim_spec(token@) == trim_spec(token@.subrange(lo as int, hi as int)),
            lo < hi ==> token@[lo as int] != ' ',
        decreases hi - lo,
    {
        proof {
            assert(token@.subrange(lo as int, hi as int).drop_last() =~= token@.subrange(
                lo as int,
                hi - 1,
            ));
        }
        hi = hi - 1;
    }
    proof {
        assert(trim_spec(token@.subrange(lo as int, hi as int)) == token@.subrange(
            lo as int,
            hi as int,
        ));
        assert(token@ == shortcut_string@.subrange(i + 1, j as int));
    }
    let key = if hi - lo == 1 {
        let c = token.get_char(lo);
        if c == 'a' || c == 'A' {
            Key::A
        } else if c == 'b' || c == 'B' {
            Key::B
        } else if c == 'c' || c == 'C' {
            Key::C
        } else if c == 'd' || c == 'D' {
            Key::D
        } else if c == 'e' || c == 'E' {
            Key::E
        } else if c == 'f' || c == 'F' {
            Key::F
        } else if c == 'g' || c == 'G' {
            Key::G
        } else if c == 'h' || c == 'H' {
            Key::H
        } else if c == 'i' || c == 'I' {
            Key::I
        } else if c == 'j' || c == 'J' {
            Key::J
        } else if c == 'k' || c == 'K' {
            Key::K
        } else if c == 'l' || c == 'L' {
            Key::L
        } else if c == 'm' || c == 'M' {
            Key::M
        } else if c == 'n' || c == 'N' {
            Key::N
        } else if c == 'o' || c == 'O' {
            Key::O
        } else if c == 'p' || c == 'P' {
            Key::P
        } else if c == 'q' || c == 'Q' {
            Key::Q
        } else if c == 'r' || c == 'R' {
            Key::R
        } else if c == 's' || c == 'S' {
            Key::S
        } else if c == 't' || c == 'T' {
            Key::T
        } else if c == 'u' || c == 'U' {
            Key::U
        } else if c == 'v' || c == 'V' {
            Key::V
        } else if c == 'w' || c == 'W' {
            Key::W
        } else if c == 'x' || c == 'X' {
            Key::X
        } else if c == 'y' || c == 'Y' {
            Key::Y
        } else if c == 'z' || c == 'Z' {
            Key::Z
        } else if c == '0' {
            Key::Digit0
        } else if c == '1' {
            Key::Digit1
        } else if c == '2' {
            Key::Digit2
        } else if c == '3' {
            Key::Digit3
        } else if c == '4' {
            Key::Digit4
        } else if c == '5' {
            Key::Digit5
        } else if c == '6' {
            Key::Digit6
        } else if c == '7' {
            Key::Digit7
        } else if c == '8' {
            Key::Digit8
        } else if c == '9' {
            Key::Digit9
        } else {
            Key::K
        }
    } else {
        Key::K
    };
    proof {
        let trimmed = token@.subrange(lo as int, hi as int);
        if hi - lo == 1 {
            assert(trimmed[0] == token@[lo as int]);
        }
        assert(key == key_of_token(trim_spec(shortcut_string@.subrange(i + 1, j as int))));
    }
    Some((Modifier::Control, key))
}


/// Which of the three configuration lines a value belongs to.
#[derive(Clone, Copy, PartialEq, Eq, Structural, Debug)]
pub enum ConfigField {
    SavePath,
    BackgroundShortcut,
    FullscreenShortcut,
}

/// The configuration content with one field replaced: the save path keeps
/// everything from the first line break on, a shortcut keeps the lines
/// before it and drops the rest.
pub open spec fn splice_spec(content: Seq<char>, configuration: Seq<char>, field: ConfigField) -> Seq<
    char,
> {
    let nl1 = find_char(content, '\n', 0);
    let nl2 = find_char(content, '\n', nl1 + 1);
    match field {
        ConfigField::SavePath => configuration + content.skip(nl1),
        ConfigField::BackgroundShortcut => content.take(nl1) + "\n"@ + configuration,
        ConfigField::FullscreenShortcut => content.take(nl1) + "\n"@ + content.subrange(
            if nl1 < content.len() {
                nl1 + 1
            } else {
                nl1
            },
            nl2,
        ) + "\n"@ + configuration,
    }
}

/// Replaces one field of the configuration content, leaving the other
/// lines as they were.
pub fn splice_config(content: &str, configuration: &str, field: ConfigField) -> (r: String)
    ensures
        r@ == splice_spec(content@, configuration@, field),
{
    let n = content.unicode_len();
    let nl1 = find_char_exec(content, '\n', 0);
    let first_line = content.substring_char(0, nl1);
    match field {
        ConfigField::SavePath => {
            let tail = content.substring_char(nl1, n);
            let out = String::from_str(configuration).concat(tail);
            proof {
                assert(content@.subrange(nl1 as int, n as int) =~= content@.skip(nl1 as int));
            }
            out
        },
        ConfigField::BackgroundShortcut => {
            let out = String::from_str(first_line).concat("\n").concat(configuration);
            proof {
                assert(content@.subrange(0, nl1 as int) =~= content@.take(nl1 as int));
            }
            out
        },
        ConfigField::FullscreenShortcut => {
            let start2: usize = if nl1 < n {
                nl1 + 1
            } else {
                nl1
            };
            let nl2 = find_char_exec(content, '\n', start2);
            proof {
                assert(find_char(content@, '\n', nl1 + 1) == find_char(
                    content@,
                    '\n',
                    start2 as int,
                ));
            }
            let second_line = content.substring_char(start2, nl2);
            let out = String::from_str(first_line).concat("\n").concat(second_line).concat(
                "\n",
            ).concat(configuration);
            proof {
                assert(content@.subrange(0, nl1 as int) =~= content@.take(nl1 as int));
            }
            out
        },
    }
}

/// The save path stored in the configuration content: its first line, or
/// the default directory when the content is empty.
pub open spec fn config_savepath(content: Seq<char>) -> Seq<char> {
    if content.len() == 0 {
        "target"@
    } else {
        content.take(find_char(content, '\n', 0))
    }
}

/// The line of the content starting at `start`, or the given default when
/// no line starts there.
pub open spec fn config_line_or(content: Seq<char>, start: int, default: Seq<char>) -> Seq<char> {
    if 0 <= start < content.len() {
        content.subrange(start, find_char(content, '\n', start))
    } else {
        default
    }
}

/// The shortcut for the overlay stored on the second configuration line,
/// or its default.
pub open spec fn config_bg_shortcut(content: Seq<char>) -> Seq<char> {
    config_line_or(content, find_char(content, '\n', 0) + 1, "ctrl + k"@)
}

/// The shortcut for a full-screen capture stored on the third
/// configuration line, or its default.
pub open spec fn config_fs_shortcut(content: Seq<char>) -> Seq<char> {
    let nl1 = find_char(content, '\n', 0);
    if nl1 >= content.len() {
        "ctrl + f"@
    } else {
        config_line_or(content, find_char(content, '\n', nl1 + 1) + 1, "ctrl + f"@)
    }
}

/// Reads the three configured values out of the file content, falling
/// back to the defaults for missing lines.
pub fn parse_config(content: &str) -> (r: (String, String, String))
    ensures
        r.0@ == config_savepath(content@),
        r.1@ == config_bg_shortcut(content@),
        r.2@ == config_fs_shortcut(content@),
{
    let n = content.unicode_len();
    let nl1 = find_char_exec(content, '\n', 0);
    let savepath: String = if n == 0 {
        String::from_str("target")
    } else {
        String::from_str(content.substring_char(0, nl1))
    };
    proof {
        if n != 0 {
            assert(content@.subrange(0, nl1 as int) =~= content@.take(nl1 as int));
        }
    }
    let bg: String = if nl1 < n && nl1 + 1 < n {
        let nl2 = find_char_exec(content, '\n', nl1 + 1);
        String::from_str(content.substring_char(nl1 + 1, nl2))
    } else {
        String::from_str("ctrl + k")
    };
    let fs: String = if nl1 < n {
        let nl2 = find_char_exec(content, '\n', nl1 + 1);
        if nl2 < n && nl2 + 1 < n {
            let nl3 = find_char_exec(content, '\n', nl2 + 1);
            String::from_str(content.substring_char(nl2 + 1, nl3))
        } else {
            String::from_str("ctrl + f")
        }
    } else {
        String::from_str("ctrl + f")
    };
    (savepath, bg, fs)
}

/// The state of the settings window: which pane is showing, the three
/// configured values, and the capture delay.
pub struct MainState {
    pub launch_overlay: bool,
    pub path_gui: bool,
    pub shortcut_gui: bool,
    pub path: String,
    pub bg_shortcut: String,
    pub fs_shortcut: String,
    pub delay_state: u32,
}

/// A command the settings window's widgets emit.
#[derive(Clone, Copy, PartialEq, Eq, Structural, Debug)]
pub enum SettingsCommand {
    LaunchOverlay,
    PathGui,
    ShortcutGui,
    Home,
    RunInBackground,
    Fullscreen,
    Delay(u32),
}

/// What the surrounding program must do after a command: keep the window
/// open, or quit it and start the named activity after the stored delay.
#[derive(Clone, Copy, PartialEq, Eq, Structural, Debug)]
pub enum SettingsAction {
    Stay,
    QuitToOverlay { delay: u32 },
    QuitToFullscreenCapture { delay: u32 },
    QuitToBackgroundListener,
}

/// Applies one settings command: pane switches update the flags, the
/// delay command stores its value, and the three launching commands ask
/// the surrounding program to quit the window and start the activity.
pub fn handle_command(state: MainState, cmd: SettingsCommand) -> (r: (MainState, SettingsAction))
    ensures
        r.0.path == state.path,
        r.0.bg_shortcut == state.bg_shortcut,
        r.0.fs_shortcut == state.fs_shortcut,
        cmd matches SettingsCommand::Delay(d) ==> r.0.delay_state == d && r.1
            == SettingsAction::Stay,
        !(cmd is Delay) ==> r.0.delay_state == state.delay_state,
        !(cmd is PathGui) && !(cmd is ShortcutGui) && !(cmd is Home) ==> r.0.path_gui
            == state.path_gui && r.0.shortcut_gui == state.shortcut_gui,
        !(cmd is PathGui) && !(cmd is ShortcutGui) && !(cmd is Home) && !(cmd is LaunchOverlay)
            ==> r.0.launch_overlay == state.launch_overlay,
        cmd is LaunchOverlay ==> r.0.launch_overlay && r.1 == (SettingsAction::QuitToOverlay {
            delay: state.delay_state,
        }),
        cmd is Fullscreen ==> r.1 == (SettingsAction::QuitToFullscreenCapture {
            delay: state.delay_state,
        }),
        cmd is RunInBackground ==> r.1 == SettingsAction::QuitToBackgroundListener,
        cmd is PathGui ==> r.0.path_gui && !r.0.shortcut_gui && !r.0.launch_overlay && r.1
            == SettingsAction::Stay,
        cmd is ShortcutGui ==> r.0.shortcut_gui && !r.0.path_gui && !r.0.launch_overlay && r.1
            == SettingsAction::Stay,
        cmd is Home ==> !r.0.path_gui && !r.0.shortcut_gui && !r.0.launch_overlay && r.1
            == SettingsAction::Stay,
{
    let mut state = state;
    match cmd {
        SettingsCommand::LaunchOverlay => {
            state.launch_overlay = true;
            let delay = state.delay_state;
            (state, SettingsAction::QuitToOverlay { delay })
        },
        SettingsCommand::PathGui => {
            state.launch_overlay = false;
            state.shortcut_gui = false;
            state.path_gui = true;
            (state, SettingsAction::Stay)
        },
        SettingsCommand::ShortcutGui => {
            state.launch_overlay = false;
            state.path_gui = false;
            state.shortcut_gui = true;
            (state, SettingsAction::Stay)
        },
        SettingsCommand::Home => {
            state.launch_overlay = false;
            state.shortcut_gui = false;
            state.path_gui = false;
            (state, SettingsAction::Stay)
        },
        SettingsCommand::RunInBackground => {
            (state, SettingsAction::QuitToBackgroundListener)
        },
        SettingsCommand::Fullscreen => {
            let delay = state.delay_state;
            (state, SettingsAction::QuitToFullscreenCapture { delay })
        },
        SettingsCommand::Delay(number) => {
            state.delay_state = number;
            (state, SettingsAction::Stay)
        },
    }
}

} // verus!
