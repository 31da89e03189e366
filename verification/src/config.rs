//! Configuration values, command-line overrides, and validation.
use vstd::prelude::*;

use crate::cli::ConfigArgs;
use crate::render::{dec_string, debug_char, debug_quoted, decimal, quote_debug, quote_debug_char};
use crate::text::{all_digits, chars_of, dec_value, digit_run, leading_decimal, slice_vec, str_eq};

verus! {

/// How to pin an action reference.
#[derive(Debug, Clone, Copy, PartialEq, Eq, Structural)]
pub enum PinMode {
    /// Write a full commit SHA and, when known, a human-readable tag comment.
    Sha,
    /// Write the selected release tag directly.
    Tag,
}

/// Which semver component to target when updating.
#[derive(Debug, Clone, Copy, PartialEq, Eq, Structural)]
pub enum UpdateLevel {
    /// Allow updates across major versions.
    Major,
    /// Allow updates within the current major version.
    Minor,
    /// Allow updates within the current major and minor version.
    Patch,
}

/// Units accepted by [`RelativeDuration`].
#[derive(Debug, Clone, Copy, PartialEq, Eq, Structural)]
pub enum DurationUnit {
    /// 24-hour periods.
    Days,
    /// Hours.
    Hours,
    /// Minutes.
    Minutes,
}

/// A duration with a unit suffix: `d` (days), `h` (hours), `m` (minutes).
#[derive(Debug, Clone, Copy, PartialEq, Eq, Structural)]
pub struct RelativeDuration {
    /// Number of duration units.
    pub amount: u64,
    /// Unit applied to [`Self::amount`].
    pub unit: DurationUnit,
}

/// Output format for actioneer commands; absent, `update` uses the TUI.
#[derive(Debug, Clone, Copy, PartialEq, Eq, Structural)]
pub enum OutputMode {
    /// Human-readable non-interactive output.
    Plain,
    /// Machine-readable JSON output.
    Json,
}

/// Top-level configuration for actioneer.
#[derive(Debug, Clone, Copy, PartialEq, Eq, Structural)]
pub struct ActioneerConfig {
    /// Output pin representation used when applying updates.
    pub pin: PinMode,
    /// Largest semver component that may change during routine updates.
    pub update: UpdateLevel,
    /// Whether branch-pinned references are excluded from processing.
    pub skip_branches: bool,
    /// Minimum age required before a release is eligible.
    pub min_release_age: Option<RelativeDuration>,
    /// Whether network access is disabled in favor of cached data.
    pub offline: bool,
    /// Whether cache reads and writes are bypassed.
    pub no_cache: bool,
    /// Non-interactive output mode; `None` selects the update TUI.
    pub mode: Option<OutputMode>,
    /// Whether all planned changes should be applied.
    pub apply: bool,
    /// Whether apply results should be previewed without writing files.
    pub dry_run: bool,
}

/// Errors that can occur when loading or validating the configuration.
#[derive(Debug, Clone, PartialEq, Eq)]
pub enum ConfigError {
    /// The configuration file could not be read (the I/O error message).
    Io(String),
    /// The configuration file is not valid actioneer TOML (the parser's message).
    Parse(String),
    /// Two or more resolved settings cannot be used together.
    Conflict(String),
}

/// The user-facing text of a configuration error.
pub open spec fn config_error_text(e: ConfigError) -> Seq<char> {
    match e {
        ConfigError::Io(m) => "I/O error reading config: "@ + m@,
        ConfigError::Parse(m) => "invalid config: "@ + m@,
        ConfigError::Conflict(m) => "conflicting options: "@ + m@,
    }
}

impl ConfigError {
    /// The user-facing text of this error.
    pub fn message(&self) -> (r: String)
        ensures
            r@ == config_error_text(*self),
    {
        proof {
            reveal_strlit("I/O error reading config: ");
            reveal_strlit("invalid config: ");
            reveal_strlit("conflicting options: ");
        }
        let (head, tail) = match self {
            ConfigError::Io(m) => ("I/O error reading config: ", m),
            ConfigError::Parse(m) => ("invalid config: ", m),
            ConfigError::Conflict(m) => ("conflicting options: ", m),
        };
        let mut s = head.to_string();
        crate::text::push_str(&mut s, tail.as_str());
        s
    }
}

pub open spec fn default_config() -> ActioneerConfig {
    ActioneerConfig {
        pin: PinMode::Sha,
        update: UpdateLevel::Minor,
        skip_branches: false,
        min_release_age: None,
        offline: false,
        no_cache: false,
        mode: None,
        apply: false,
        dry_run: false,
    }
}

impl Default for ActioneerConfig {
    fn default() -> (r: Self)
        ensures
            r == default_config(),
    {
        ActioneerConfig {
            pin: PinMode::Sha,
            update: UpdateLevel::Minor,
            skip_branches: false,
            min_release_age: None,
            offline: false,
            no_cache: false,
            mode: None,
            apply: false,
            dry_run: false,
        }
    }
}

impl ActioneerConfig {
    /// The configuration used when no file and no option says otherwise.
    pub fn defaults() -> (r: Self)
        ensures
            r == default_config(),
    {
        ActioneerConfig {
            pin: PinMode::Sha,
            update: UpdateLevel::Minor,
            skip_branches: false,
            min_release_age: None,
            offline: false,
            no_cache: false,
            mode: None,
            apply: false,
            dry_run: false,
        }
    }
}

// ---------------------------------------------------------------------------
// Labels and parsing
// ---------------------------------------------------------------------------

pub open spec fn pin_mode_label(m: PinMode) -> Seq<char> {
    match m {
        PinMode::Sha => "sha"@,
        PinMode::Tag => "tag"@,
    }
}

pub open spec fn update_level_label(l: UpdateLevel) -> Seq<char> {
    match l {
        UpdateLevel::Major => "major"@,
        UpdateLevel::Minor => "minor"@,
        UpdateLevel::Patch => "patch"@,
    }
}

pub open spec fn output_mode_label(m: OutputMode) -> Seq<char> {
    match m {
        OutputMode::Plain => "plain"@,
        OutputMode::Json => "json"@,
    }
}

pub open spec fn unit_char(u: DurationUnit) -> char {
    match u {
        DurationUnit::Days => 'd',
        DurationUnit::Hours => 'h',
        DurationUnit::Minutes => 'm',
    }
}

pub open spec fn duration_label(d: RelativeDuration) -> Seq<char> {
    dec_string(d.amount as nat).push(unit_char(d.unit))
}

impl PinMode {
    /// The configuration spelling of this mode.
    pub fn as_str(self) -> (r: &'static str)
        ensures
            r@ == pin_mode_label(self),
    {
        match self {
            PinMode::Sha => "sha",
            PinMode::Tag => "tag",
        }
    }

    /// Parse `"sha"` or `"tag"`.
    pub fn from_str(s: &str) -> (r: Result<Self, String>)
        ensures
            match r {
                Ok(m) => pin_mode_label(m) == s@,
                Err(e) => s@ != "sha"@ && s@ != "tag"@ && e@ == "unknown pin mode "@ + debug_quoted(
                    s@,
                ) + "; expected \"sha\" or \"tag\""@,
            },
    {
        if str_eq(s, "sha") {
            Ok(PinMode::Sha)
        } else if str_eq(s, "tag") {
            Ok(PinMode::Tag)
        } else {
            let q = quote_debug(s);
            Err(crate::text::concat3("unknown pin mode ", q.as_str(), "; expected \"sha\" or \"tag\""))
        }
    }
}

impl UpdateLevel {
    /// The configuration spelling of this level.
    pub fn as_str(self) -> (r: &'static str)
        ensures
            r@ == update_level_label(self),
    {
        match self {
            UpdateLevel::Major => "major",
            UpdateLevel::Minor => "minor",
            UpdateLevel::Patch => "patch",
        }
    }

    /// Parse `"major"`, `"minor"` or `"patch"`.
    pub fn from_str(s: &str) -> (r: Result<Self, String>)
        ensures
            match r {
                Ok(l) => update_level_label(l) == s@,
                Err(e) => s@ != "major"@ && s@ != "minor"@ && s@ != "patch"@ && e@
                    == "unknown update level "@ + debug_quoted(s@)
                    + "; expected \"major\", \"minor\", or \"patch\""@,
            },
    {
        if str_eq(s, "major") {
            Ok(UpdateLevel::Major)
        } else if str_eq(s, "minor") {
            Ok(UpdateLevel::Minor)
        } else if str_eq(s, "patch") {
            Ok(UpdateLevel::Patch)
        } else {
            let q = quote_debug(s);
            Err(
                crate::text::concat3(
                    "unknown update level ",
                    q.as_str(),
                    "; expected \"major\", \"minor\", or \"patch\"",
                ),
            )
        }
    }
}

impl OutputMode {
    /// The configuration spelling of this mode.
    pub fn as_str(self) -> (r: &'static str)
        ensures
            r@ == output_mode_label(self),
    {
        match self {
            OutputMode::Plain => "plain",
            OutputMode::Json => "json",
        }
    }

    /// Parse `"plain"` or `"json"`.
    pub fn from_str(s: &str) -> (r: Result<Self, String>)
        ensures
            match r {
                Ok(m) => output_mode_label(m) == s@,
                Err(e) => s@ != "plain"@ && s@ != "json"@ && e@ == "unknown output mode "@
                    + debug_quoted(s@) + "; expected \"plain\" or \"json\""@,
            },
    {
        if str_eq(s, "plain") {
            Ok(OutputMode::Plain)
        } else if str_eq(s, "json") {
            Ok(OutputMode::Json)
        } else {
            let q = quote_debug(s);
            Err(crate::text::concat3("unknown output mode ", q.as_str(), "; expected \"plain\" or \"json\""))
        }
    }
}

/// `u64::from_str`: an optional `+`, then one or more ASCII digits whose value fits.
pub open spec fn spec_parse_u64(s: Seq<char>) -> Option<u64> {
    let d = if s.len() > 0 && s[0] == '+' {
        s.drop_first()
    } else {
        s
    };
    if d.len() == 0 || !all_digits(d) || dec_value(d) > u64::MAX {
        None
    } else {
        Some(dec_value(d) as u64)
    }
}

/// Parse an unsigned decimal the way `str::parse::<u64>` does.
pub fn parse_u64(cs: &[char]) -> (r: Option<u64>)
    ensures
        r == spec_parse_u64(cs@),
{
    let from: usize = if cs.len() > 0 && cs[0] == '+' {
        1
    } else {
        0
    };
    let ghost d = cs@.skip(from as int);
    assert(d == (if cs@.len() > 0 && cs@[0] == '+' {
        cs@.drop_first()
    } else {
        cs@
    }));
    let v = leading_decimal(cs, from, 0xffff_ffff_ffff_ffff);
    let run_ok = all_digit_tail(cs, from);
    proof {
        crate::text::lemma_digit_run_all(d);
        if run_ok {
            assert(d.take(d.len() as int) == d);
        }
    }
    if from >= cs.len() || !run_ok {
        return None;
    }
    v
}

fn all_digit_tail(cs: &[char], from: usize) -> (r: bool)
    requires
        from <= cs.len(),
    ensures
        r == all_digits(cs@.skip(from as int)),
{
    let mut i = from;
    while i < cs.len()
        invariant
            from <= i <= cs.len(),
            forall|j: int| from <= j < i ==> crate::text::is_digit(#[trigger] cs@[j]),
        decreases cs.len() - i,
    {
        if !crate::text::digit(cs[i]) {
            assert(!crate::text::is_digit(cs@.skip(from as int)[i - from]));
            return false;
        }
        i += 1;
    }
    assert forall|j: int| 0 <= j < cs@.skip(from as int).len() implies crate::text::is_digit(
        #[trigger] cs@.skip(from as int)[j],
    ) by {
        assert(cs@.skip(from as int)[j] == cs@[from + j]);
    }
    true
}

impl RelativeDuration {
    /// `7d`, `4h`, `30m`: the amount and the unit letter.
    pub fn to_label(&self) -> (r: String)
        ensures
            r@ == duration_label(*self),
    {
        let mut s = decimal(self.amount);
        let c = match self.unit {
            DurationUnit::Days => 'd',
            DurationUnit::Hours => 'h',
            DurationUnit::Minutes => 'm',
        };
        s.push(c);
        s
    }

    /// Parse `"<amount><unit>"` with unit `d`, `h` or `m`.
    pub fn from_str(s: &str) -> (r: Result<Self, String>)
        ensures
            s@.len() == 0 ==> r == Err::<Self, String>(r->Err_0) && r->Err_0@
                == "duration cannot be empty"@,
            s@.len() > 0 ==> {
                let u = s@.last();
                let num = s@.drop_last();
                if u != 'd' && u != 'h' && u != 'm' {
                    r is Err && r->Err_0@ == "unknown duration unit "@ + debug_char(u) + " in "@
                        + debug_quoted(s@) + "; expected 'd', 'h', or 'm'"@
                } else {
                    match spec_parse_u64(num) {
                        Some(amount) => r is Ok && r->Ok_0.amount == amount && unit_char(
                            r->Ok_0.unit,
                        ) == u,
                        None => r is Err && r->Err_0@ == "invalid duration amount in "@
                            + debug_quoted(s@)
                            + ": expected a positive integer before the unit"@,
                    }
                }
            },
    {
        let cs = chars_of(s);
        if cs.len() == 0 {
            return Err("duration cannot be empty".to_owned());
        }
        let u = cs[cs.len() - 1];
        let num = slice_vec(&cs, 0, cs.len() - 1);
        let unit = if u == 'd' {
            DurationUnit::Days
        } else if u == 'h' {
            DurationUnit::Hours
        } else if u == 'm' {
            DurationUnit::Minutes
        } else {
            let qc = quote_debug_char(u);
            let qs = quote_debug(s);
            let mut e = crate::text::concat3("unknown duration unit ", qc.as_str(), " in ");
            crate::text::push_str(&mut e, qs.as_str());
            crate::text::push_str(&mut e, "; expected 'd', 'h', or 'm'");
            return Err(e);
        };
        match parse_u64(&num) {
            Some(amount) => Ok(RelativeDuration { amount, unit }),
            None => {
                let qs = quote_debug(s);
                Err(
                    crate::text::concat3(
                        "invalid duration amount in ",
                        qs.as_str(),
                        ": expected a positive integer before the unit",
                    ),
                )
            },
        }
    }
}

// ---------------------------------------------------------------------------
// Overrides and validation
// ---------------------------------------------------------------------------

pub open spec fn or_keep<T>(o: Option<T>, current: T) -> T {
    match o {
        Some(v) => v,
        None => current,
    }
}

/// `c` with every option present in `args` taking precedence.
pub open spec fn overridden(c: ActioneerConfig, args: ConfigArgs) -> ActioneerConfig {
    ActioneerConfig {
        pin: or_keep(args.pin, c.pin),
        update: or_keep(args.update, c.update),
        skip_branches: or_keep(args.skip_branches, c.skip_branches),
        min_release_age: match args.min_release_age {
            Some(d) => Some(d),
            None => c.min_release_age,
        },
        offline: or_keep(args.offline, c.offline),
        no_cache: or_keep(args.no_cache, c.no_cache),
        mode: match args.mode {
            Some(m) => Some(m),
            None => c.mode,
        },
        apply: or_keep(args.apply, c.apply),
        dry_run: or_keep(args.dry_run, c.dry_run),
    }
}

pub open spec fn conflict_message() -> Seq<char> {
    "offline and no_cache are mutually exclusive: offline mode relies on the cache, but no_cache disables it entirely"@
}

impl ActioneerConfig {
    /// Apply command-line overrides: only options that are present replace the current value.
    pub fn apply_overrides(&mut self, args: &ConfigArgs)
        ensures
            *final(self) == overridden(*old(self), *args),
    {
        let c = *self;
        *self = ActioneerConfig {
            pin: match args.pin {
                Some(v) => v,
                None => c.pin,
            },
            update: match args.update {
                Some(v) => v,
                None => c.update,
            },
            skip_branches: match args.skip_branches {
                Some(v) => v,
                None => c.skip_branches,
            },
            min_release_age: match args.min_release_age {
                Some(v) => Some(v),
                None => c.min_release_age,
            },
            offline: match args.offline {
                Some(v) => v,
                None => c.offline,
            },
            no_cache: match args.no_cache {
                Some(v) => v,
                None => c.no_cache,
            },
            mode: match args.mode {
                Some(v) => Some(v),
                None => c.mode,
            },
            apply: match args.apply {
                Some(v) => v,
                None => c.apply,
            },
            dry_run: match args.dry_run {
                Some(v) => v,
                None => c.dry_run,
            },
        };
    }

    /// Reject contradictory settings: offline mode together with a disabled cache.
    pub fn validate(&self) -> (r: Result<(), ConfigError>)
        ensures
            r is Ok <==> !(self.offline && self.no_cache),
            r matches Err(e) ==> e matches ConfigError::Conflict(m) && m@ == conflict_message(),
    {
        if self.offline && self.no_cache {
            return Err(
                ConfigError::Conflict(
                    "offline and no_cache are mutually exclusive: offline mode relies on the cache, but no_cache disables it entirely".to_owned(),
                ),
            );
        }
        Ok(())
    }
}

} // verus!
