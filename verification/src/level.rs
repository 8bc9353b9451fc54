//! Severity levels of lulu-logs entries.
use vstd::prelude::*;
use vstd::utf8::is_ascii_chars;
use crate::text::{ascii_lowercase, chars_eq, chars_of, concat2, to_lowercase, unicode_lowercase};

verus! {

/// Severity level for a lulu-logs entry, ordered from least to most severe.
#[derive(Debug, Clone, Copy, PartialEq, Eq, Structural, PartialOrd, Ord, Hash)]
pub enum LuluLevel {
    Trace,
    Debug,
    Info,
    Warn,
    Error,
    Fatal,
}

impl LuluLevel {
    /// The protocol's integer value of the level (`Trace` = 0 … `Fatal` = 5).
    pub open spec fn code(self) -> i8 {
        match self {
            LuluLevel::Trace => 0,
            LuluLevel::Debug => 1,
            LuluLevel::Info => 2,
            LuluLevel::Warn => 3,
            LuluLevel::Error => 4,
            LuluLevel::Fatal => 5,
        }
    }

    pub open spec fn css_class_spec(self) -> Seq<char> {
        match self {
            LuluLevel::Trace => "level-trace"@,
            LuluLevel::Debug => "level-debug"@,
            LuluLevel::Info => "level-info"@,
            LuluLevel::Warn => "level-warn"@,
            LuluLevel::Error => "level-error"@,
            LuluLevel::Fatal => "level-fatal"@,
        }
    }

    /// The name shown for the level.
    pub open spec fn name_spec(self) -> Seq<char> {
        match self {
            LuluLevel::Trace => "Trace"@,
            LuluLevel::Debug => "Debug"@,
            LuluLevel::Info => "Info"@,
            LuluLevel::Warn => "Warn"@,
            LuluLevel::Error => "Error"@,
            LuluLevel::Fatal => "Fatal"@,
        }
    }

    /// The lowercase word that parses to the level.
    pub open spec fn word_spec(self) -> Seq<char> {
        match self {
            LuluLevel::Trace => "trace"@,
            LuluLevel::Debug => "debug"@,
            LuluLevel::Info => "info"@,
            LuluLevel::Warn => "warn"@,
            LuluLevel::Error => "error"@,
            LuluLevel::Fatal => "fatal"@,
        }
    }

    /// The level whose lowercase word is `w`, if any.
    /// The level's name in capitals, as `to_uppercase` writes it.
    pub open spec fn upper_spec(self) -> Seq<char> {
        match self {
            LuluLevel::Trace => "TRACE"@,
            LuluLevel::Debug => "DEBUG"@,
            LuluLevel::Info => "INFO"@,
            LuluLevel::Warn => "WARN"@,
            LuluLevel::Error => "ERROR"@,
            LuluLevel::Fatal => "FATAL"@,
        }
    }

    /// The three spellings of a level that parse back to it: its name, in lowercase, in capitals.
    pub open spec fn spelled(self, s: Seq<char>) -> bool {
        s == self.name_spec() || s == self.word_spec() || s == self.upper_spec()
    }

    pub open spec fn from_word_spec(w: Seq<char>) -> Option<LuluLevel> {
        if w == "trace"@ {
            Some(LuluLevel::Trace)
        } else if w == "debug"@ {
            Some(LuluLevel::Debug)
        } else if w == "info"@ {
            Some(LuluLevel::Info)
        } else if w == "warn"@ {
            Some(LuluLevel::Warn)
        } else if w == "error"@ {
            Some(LuluLevel::Error)
        } else if w == "fatal"@ {
            Some(LuluLevel::Fatal)
        } else {
            None
        }
    }

    /// The level of a raw protocol value; unknown values read as `Info`.
    pub open spec fn from_code_spec(raw: i8) -> LuluLevel {
        if raw == 0 {
            LuluLevel::Trace
        } else if raw == 1 {
            LuluLevel::Debug
        } else if raw == 2 {
            LuluLevel::Info
        } else if raw == 3 {
            LuluLevel::Warn
        } else if raw == 4 {
            LuluLevel::Error
        } else if raw == 5 {
            LuluLevel::Fatal
        } else {
            LuluLevel::Info
        }
    }

    /// Returns the CSS class name associated with this level.
    pub fn css_class(&self) -> (r: &'static str)
        ensures
            r@ == self.css_class_spec(),
    {
        match self {
            LuluLevel::Trace => "level-trace",
            LuluLevel::Debug => "level-debug",
            LuluLevel::Info => "level-info",
            LuluLevel::Warn => "level-warn",
            LuluLevel::Error => "level-error",
            LuluLevel::Fatal => "level-fatal",
        }
    }

    /// Converts from the raw value of the FlatBuffers `LogLevel` (a `byte` enum).
    pub fn from_fbs(raw: i8) -> (r: LuluLevel)
        ensures
            r == Self::from_code_spec(raw),
    {
        match raw {
            0 => LuluLevel::Trace,
            1 => LuluLevel::Debug,
            2 => LuluLevel::Info,
            3 => LuluLevel::Warn,
            4 => LuluLevel::Error,
            5 => LuluLevel::Fatal,
            _ => LuluLevel::Info,
        }
    }

    /// The raw FlatBuffers value of the level.
    pub fn to_fbs(&self) -> (r: i8)
        ensures
            r == self.code(),
    {
        match self {
            LuluLevel::Trace => 0,
            LuluLevel::Debug => 1,
            LuluLevel::Info => 2,
            LuluLevel::Warn => 3,
            LuluLevel::Error => 4,
            LuluLevel::Fatal => 5,
        }
    }

    /// The name shown for the level (`Trace`, `Debug`, …).
    pub fn as_str(&self) -> (r: &'static str)
        ensures
            r@ == self.name_spec(),
    {
        match self {
            LuluLevel::Trace => "Trace",
            LuluLevel::Debug => "Debug",
            LuluLevel::Info => "Info",
            LuluLevel::Warn => "Warn",
            LuluLevel::Error => "Error",
            LuluLevel::Fatal => "Fatal",
        }
    }

    /// The name shown for the level, as an owned string (what `Display` renders).
    pub fn to_string(&self) -> (r: String)
        ensures
            r@ == self.name_spec(),
    {
        String::from_str(self.as_str())
    }

    /// Parses a level name, ignoring case: the text is lowercased (`str::to_lowercase`) and
    /// must then be one of `trace`, `debug`, `info`, `warn`, `error`, `fatal`. Any other text
    /// gives `Err("unknown log level: {s}")`.
    pub fn parse(s: &str) -> (r: Result<LuluLevel, String>)
        ensures
            match Self::from_word_spec(unicode_lowercase(s@)) {
                Some(l) => r == Ok::<LuluLevel, String>(l),
                None => r matches Err(m) && m@ == "unknown log level: "@ + s@,
            },
            forall|l: LuluLevel| #[trigger] l.spelled(s@) ==> r == Ok::<LuluLevel, String>(l),
    {
        let lower = to_lowercase(s);
        proof {
            assert forall|l: LuluLevel| #[trigger] l.spelled(s@) implies Self::from_word_spec(
                unicode_lowercase(s@),
            ) == Some(l) by {
                lemma_level_name_lowercases_to_word(l);
            }
        }
        let w = chars_of(lower.as_str());
        if chars_eq(&w, &chars_of("trace")) {
            Ok(LuluLevel::Trace)
        } else if chars_eq(&w, &chars_of("debug")) {
            Ok(LuluLevel::Debug)
        } else if chars_eq(&w, &chars_of("info")) {
            Ok(LuluLevel::Info)
        } else if chars_eq(&w, &chars_of("warn")) {
            Ok(LuluLevel::Warn)
        } else if chars_eq(&w, &chars_of("error")) {
            Ok(LuluLevel::Error)
        } else if chars_eq(&w, &chars_of("fatal")) {
            Ok(LuluLevel::Fatal)
        } else {
            Err(concat2("unknown log level: ", s))
        }
    }
}

/// The raw protocol value of a level reads back as that level.
pub proof fn lemma_level_code_roundtrip(l: LuluLevel)
    ensures
        LuluLevel::from_code_spec(l.code()) == l,
{
}

/// Each spelling of a level is ASCII, and lowercases to the word of the level.
pub proof fn lemma_level_name_lowercases_to_word(l: LuluLevel)
    ensures
        is_ascii_chars(l.name_spec()),
        ascii_lowercase(l.name_spec()) == l.word_spec(),
        is_ascii_chars(l.word_spec()),
        ascii_lowercase(l.word_spec()) == l.word_spec(),
        is_ascii_chars(l.upper_spec()),
        ascii_lowercase(l.upper_spec()) == l.word_spec(),
        LuluLevel::from_word_spec(l.word_spec()) == Some(l),
{
    reveal_strlit("TRACE");
    reveal_strlit("DEBUG");
    reveal_strlit("INFO");
    reveal_strlit("WARN");
    reveal_strlit("ERROR");
    reveal_strlit("FATAL");

    reveal_strlit("Trace");
    reveal_strlit("Debug");
    reveal_strlit("Info");
    reveal_strlit("Warn");
    reveal_strlit("Error");
    reveal_strlit("Fatal");
    reveal_strlit("trace");
    reveal_strlit("debug");
    reveal_strlit("info");
    reveal_strlit("warn");
    reveal_strlit("error");
    reveal_strlit("fatal");
    assert(ascii_lowercase(l.name_spec()) =~= l.word_spec());
    assert(ascii_lowercase(l.word_spec()) =~= l.word_spec());
    assert(ascii_lowercase(l.upper_spec()) =~= l.word_spec());
    let w = l.word_spec();
    assert(l !is Trace ==> w[0] != 't');
    assert(l !is Debug ==> w[0] != 'd');
    assert(l !is Info ==> w[0] != 'i');
    assert(l !is Warn ==> w[0] != 'w');
    assert(l !is Error ==> w[0] != 'e');
    assert(l !is Fatal ==> w[0] != 'f');
}

impl std::str::FromStr for LuluLevel {
    type Err = String;

    /// Parses a level name as `LuluLevel::parse` does.
    fn from_str(s: &str) -> (r: Result<LuluLevel, String>)
        ensures
            match LuluLevel::from_word_spec(unicode_lowercase(s@)) {
                Some(l) => r == Ok::<LuluLevel, String>(l),
                None => r matches Err(m) && m@ == "unknown log level: "@ + s@,
            },
            forall|l: LuluLevel| #[trigger] l.spelled(s@) ==> r == Ok::<LuluLevel, String>(l),
    {
        LuluLevel::parse(s)
    }
}

} // verus!
