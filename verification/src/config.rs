//! The panel's settings: their defaults, how a settings file fills them in,
//! and where the file lives.

use vstd::prelude::*;
use vstd::string::*;
use crate::text::chars_of;

verus! {

/// The panel's settings.
#[derive(Debug, Clone)]
pub struct Config {
    pub position: String,
    pub window_transition: String,
    pub window_transition_duration: u32,
    pub stack_transition: String,
    pub stack_transition_duration: u32,
    pub margin_top: i32,
    pub margin_right: i32,
    pub margin_bottom: i32,
    pub margin_left: i32,
}

/// The settings, strings taken by their characters.
pub struct ConfigView {
    pub position: Seq<char>,
    pub window_transition: Seq<char>,
    pub window_transition_duration: u32,
    pub stack_transition: Seq<char>,
    pub stack_transition_duration: u32,
    pub margin_top: i32,
    pub margin_right: i32,
    pub margin_bottom: i32,
    pub margin_left: i32,
}

impl View for Config {
    type V = ConfigView;

    open spec fn view(&self) -> ConfigView {
        ConfigView {
            position: self.position@,
            window_transition: self.window_transition@,
            window_transition_duration: self.window_transition_duration,
            stack_transition: self.stack_transition@,
            stack_transition_duration: self.stack_transition_duration,
            margin_top: self.margin_top,
            margin_right: self.margin_right,
            margin_bottom: self.margin_bottom,
            margin_left: self.margin_left,
        }
    }
}

/// The default position of the panel.
pub fn default_position() -> (s: String)
    ensures
        s@ == "center"@,
{
    String::from_str("center")
}

/// The default transition of the window.
pub fn default_window_transition() -> (s: String)
    ensures
        s@ == "slidedown"@,
{
    String::from_str("slidedown")
}

/// The default transition between stacked pages.
pub fn default_stack_transition() -> (s: String)
    ensures
        s@ == "slidehorizontal"@,
{
    String::from_str("slidehorizontal")
}

/// The default length of a transition, in milliseconds.
pub fn default_transition_duration() -> (d: u32)
    ensures
        d == 200,
{
    200
}

/// The default margin on each side.
pub fn default_margin() -> (m: i32)
    ensures
        m == 10,
{
    10
}

/// The default settings.
pub open spec fn default_config_spec() -> ConfigView {
    ConfigView {
        position: "center"@,
        window_transition: "slidedown"@,
        window_transition_duration: 200,
        stack_transition: "slidehorizontal"@,
        stack_transition_duration: 200,
        margin_top: 10,
        margin_right: 10,
        margin_bottom: 10,
        margin_left: 10,
    }
}

impl Default for Config {
    /// Each setting at its default.
    fn default() -> (c: Self)
        ensures
            c@ == default_config_spec(),
            c.position@ == "center"@,
            c.window_transition@ == "slidedown"@,
            c.window_transition_duration == 200,
            c.stack_transition@ == "slidehorizontal"@,
            c.stack_transition_duration == 200,
            c.margin_top == 10,
            c.margin_right == 10,
            c.margin_bottom == 10,
            c.margin_left == 10,
    {
        Config {
            position: default_position(),
            window_transition: default_window_transition(),
            window_transition_duration: default_transition_duration(),
            stack_transition: default_stack_transition(),
            stack_transition_duration: default_transition_duration(),
            margin_top: default_margin(),
            margin_right: default_margin(),
            margin_bottom: default_margin(),
            margin_left: default_margin(),
        }
    }
}

/// The settings that a settings file gives; `None` where it leaves one out.
#[derive(Debug)]
pub struct ConfigFile {
    pub position: Option<String>,
    pub window_transition: Option<String>,
    pub window_transition_duration: Option<u32>,
    pub stack_transition: Option<String>,
    pub stack_transition_duration: Option<u32>,
    pub margin_top: Option<i32>,
    pub margin_right: Option<i32>,
    pub margin_bottom: Option<i32>,
    pub margin_left: Option<i32>,
}

/// A string setting from a file, or the default where the file leaves it out.
pub open spec fn str_or(o: Option<String>, d: Seq<char>) -> Seq<char> {
    match o {
        Some(s) => s@,
        None => d,
    }
}

/// A setting from a file, or the default where the file leaves it out.
pub open spec fn or_default<T>(o: Option<T>, d: T) -> T {
    match o {
        Some(v) => v,
        None => d,
    }
}

/// The settings that a file gives, each left out one at its default.
pub open spec fn config_from_file_spec(f: ConfigFile) -> ConfigView {
    let d = default_config_spec();
    ConfigView {
        position: str_or(f.position, d.position),
        window_transition: str_or(f.window_transition, d.window_transition),
        window_transition_duration: or_default(f.window_transition_duration, d.window_transition_duration),
        stack_transition: str_or(f.stack_transition, d.stack_transition),
        stack_transition_duration: or_default(f.stack_transition_duration, d.stack_transition_duration),
        margin_top: or_default(f.margin_top, d.margin_top),
        margin_right: or_default(f.margin_right, d.margin_right),
        margin_bottom: or_default(f.margin_bottom, d.margin_bottom),
        margin_left: or_default(f.margin_left, d.margin_left),
    }
}

/// The settings of a file whose settings were read, or the defaults where no
/// file could be found, read or parsed.
pub open spec fn config_loaded_spec(parsed: Option<ConfigFile>) -> ConfigView {
    match parsed {
        Some(f) => config_from_file_spec(f),
        None => default_config_spec(),
    }
}

/// `base` followed by the path component `comp`: a `/` goes between them
/// unless `base` is empty or already ends with one.
pub open spec fn join_path(base: Seq<char>, comp: Seq<char>) -> Seq<char> {
    if base.len() == 0 || base.last() == '/' {
        base + comp
    } else {
        base + seq!['/'] + comp
    }
}

/// Where the settings file lives under the home directory `home`.
pub open spec fn config_path_spec(home: Seq<char>) -> Seq<char> {
    join_path(join_path(join_path(home, ".config"@), "orbit"@), "config.toml"@)
}

fn push_component(buf: &mut String, comp: &str)
    ensures
        final(buf)@ == join_path(old(buf)@, comp@),
{
    let cs = chars_of(buf.as_str());
    let need_sep = cs.len() > 0 && cs[cs.len() - 1] != '/';
    if need_sep {
        buf.append("/");
        proof {
            reveal_strlit("/");
        }
    }
    buf.append(comp);
    proof {
        if need_sep {
            assert(old(buf)@ + "/"@ + comp@ =~= old(buf)@ + seq!['/'] + comp@);
        }
    }
}

impl Config {
    /// The settings that `file` gives, each one it leaves out at its
    /// default.
    pub fn from_file(file: ConfigFile) -> (c: Config)
        ensures
            c@ == config_from_file_spec(file),
            file.position matches Some(s) ==> c.position@ == s@,
            file.position is None ==> c.position@ == "center"@,
            file.window_transition matches Some(s) ==> c.window_transition@ == s@,
            file.window_transition is None ==> c.window_transition@ == "slidedown"@,
            file.window_transition_duration matches Some(v) ==> c.window_transition_duration == v,
            file.window_transition_duration is None ==> c.window_transition_duration == 200,
            file.stack_transition matches Some(s) ==> c.stack_transition@ == s@,
            file.stack_transition is None ==> c.stack_transition@ == "slidehorizontal"@,
            file.stack_transition_duration matches Some(v) ==> c.stack_transition_duration == v,
            file.stack_transition_duration is None ==> c.stack_transition_duration == 200,
            file.margin_top matches Some(v) ==> c.margin_top == v,
            file.margin_top is None ==> c.margin_top == 10,
            file.margin_right matches Some(v) ==> c.margin_right == v,
            file.margin_right is None ==> c.margin_right == 10,
            file.margin_bottom matches Some(v) ==> c.margin_bottom == v,
            file.margin_bottom is None ==> c.margin_bottom == 10,
            file.margin_left matches Some(v) ==> c.margin_left == v,
            file.margin_left is None ==> c.margin_left == 10,
    {
        let ghost f = file;
        Config {
            position: match file.position {
                Some(s) => s,
                None => default_position(),
            },
            window_transition: match file.window_transition {
                Some(s) => s,
                None => default_window_transition(),
            },
            window_transition_duration: match file.window_transition_duration {
                Some(v) => v,
                None => default_transition_duration(),
            },
            stack_transition: match file.stack_transition {
                Some(s) => s,
                None => default_stack_transition(),
            },
            stack_transition_duration: match file.stack_transition_duration {
                Some(v) => v,
                None => default_transition_duration(),
            },
            margin_top: match file.margin_top {
                Some(v) => v,
                None => default_margin(),
            },
            margin_right: match file.margin_right {
                Some(v) => v,
                None => default_margin(),
            },
            margin_bottom: match file.margin_bottom {
                Some(v) => v,
                None => default_margin(),
            },
            margin_left: match file.margin_left {
                Some(v) => v,
                None => default_margin(),
            },
        }
    }

    /// The settings once loading is over: those of the file where it was
    /// read and parsed, else the defaults.
    pub fn load_from(parsed: Option<ConfigFile>) -> (c: Config)
        ensures
            c@ == config_loaded_spec(parsed),
    {
        match parsed {
            Some(f) => Config::from_file(f),
            None => Config::default(),
        }
    }

    /// The path of the settings file under the home directory `home`:
    /// `.config/orbit/config.toml` in it.
    pub fn config_path_in(home: &str) -> (p: String)
        ensures
            p@ == config_path_spec(home@),
    {
        let mut p = String::from_str(home);
        push_component(&mut p, ".config");
        push_component(&mut p, "orbit");
        push_component(&mut p, "config.toml");
        p
    }
}

/// Each setting that a file gives is taken as it is given; a setting that
/// the file leaves out is at its default.
pub proof fn lemma_file_settings_taken(file: ConfigFile)
    ensures
        file.position matches Some(s) ==> config_from_file_spec(file).position == s@,
        file.position is None ==> config_from_file_spec(file).position == "center"@,
        file.window_transition matches Some(s) ==> config_from_file_spec(file).window_transition == s@,
        file.window_transition is None ==> config_from_file_spec(file).window_transition == "slidedown"@,
        file.window_transition_duration matches Some(v) ==> config_from_file_spec(file).window_transition_duration == v,
        file.window_transition_duration is None ==> config_from_file_spec(file).window_transition_duration == 200,
        file.stack_transition matches Some(s) ==> config_from_file_spec(file).stack_transition == s@,
        file.stack_transition is None ==> config_from_file_spec(file).stack_transition == "slidehorizontal"@,
        file.stack_transition_duration matches Some(v) ==> config_from_file_spec(file).stack_transition_duration == v,
        file.stack_transition_duration is None ==> config_from_file_spec(file).stack_transition_duration == 200,
        file.margin_top matches Some(v) ==> config_from_file_spec(file).margin_top == v,
        file.margin_top is None ==> config_from_file_spec(file).margin_top == 10,
        file.margin_right matches Some(v) ==> config_from_file_spec(file).margin_right == v,
        file.margin_right is None ==> config_from_file_spec(file).margin_right == 10,
        file.margin_bottom matches Some(v) ==> config_from_file_spec(file).margin_bottom == v,
        file.margin_bottom is None ==> config_from_file_spec(file).margin_bottom == 10,
        file.margin_left matches Some(v) ==> config_from_file_spec(file).margin_left == v,
        file.margin_left is None ==> config_from_file_spec(file).margin_left == 10,
{
}

/// A file that gives no setting leaves every setting at its default.
pub proof fn lemma_empty_file_gives_defaults()
    ensures
        config_from_file_spec(ConfigFile {
            position: None,
            window_transition: None,
            window_transition_duration: None,
            stack_transition: None,
            stack_transition_duration: None,
            margin_top: None,
            margin_right: None,
            margin_bottom: None,
            margin_left: None,
        }) == default_config_spec(),
{
}

/// The settings file lies under the home directory: the path starts with
/// `home` and ends with `.config/orbit/config.toml`.
pub proof fn lemma_config_path_under_home(home: Seq<char>)
    ensures
        config_path_spec(home).len() >= home.len() + ".config/orbit/config.toml"@.len(),
        config_path_spec(home).subrange(0, home.len() as int) == home,
        config_path_spec(home).subrange(
            config_path_spec(home).len() - ".config/orbit/config.toml"@.len(),
            config_path_spec(home).len() as int,
        ) == ".config/orbit/config.toml"@,
{
    reveal_strlit(".config");
    reveal_strlit("orbit");
    reveal_strlit("config.toml");
    reveal_strlit(".config/orbit/config.toml");
    let a = join_path(home, ".config"@);
    let b = join_path(a, "orbit"@);
    let c = join_path(b, "config.toml"@);
    assert(a.last() == 'g');
    assert(b.last() == 't');
    assert(b =~= a + seq!['/'] + "orbit"@);
    assert(c =~= b + seq!['/'] + "config.toml"@);
    let h = if home.len() == 0 || home.last() == '/' { home } else { home + seq!['/'] };
    assert(a =~= h + ".config"@);
    assert(c =~= h + ".config/orbit/config.toml"@);
    assert(c.subrange(0, home.len() as int) =~= home);
    assert(c.subrange(c.len() - ".config/orbit/config.toml"@.len(), c.len() as int) =~= ".config/orbit/config.toml"@);
}

} // verus!
