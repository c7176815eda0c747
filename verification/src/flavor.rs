//! Display wording: the themed ("DBZ") texts and their serious equivalents,
//! and the cycle of colour themes.
use vstd::prelude::*;

use crate::text::{decimal, extend_str, push_decimal, string_of};

verus! {

/// Chooses between the themed wording and the serious one.
pub struct Flavor {
    pub serious: bool,
}

/// The rank shown for a throughput of `rps` whole requests per second.
pub open spec fn rank_of(rps: u64) -> Seq<char> {
    if rps <= 100 {
        "Farmer"@
    } else if rps <= 500 {
        "Krillin"@
    } else if rps <= 1000 {
        "Piccolo"@
    } else if rps <= 5000 {
        "Vegeta"@
    } else if rps <= 9000 {
        "Goku"@
    } else {
        "OVER 9000"@
    }
}

/// Picks the serious or the themed text.
pub open spec fn pick(serious: bool, plain: Seq<char>, themed: Seq<char>) -> Seq<char> {
    if serious {
        plain
    } else {
        themed
    }
}

impl Flavor {
    /// A flavor; `serious` disables the themed wording.
    pub fn new(serious: bool) -> (f: Self)
        ensures
            f.serious == serious,
    {
        Flavor { serious }
    }

    /// The power rank for a throughput whose whole part is `rps`; empty in
    /// serious mode.
    pub fn power_rank(&self, rps: u64) -> (s: &'static str)
        ensures
            s@ == pick(self.serious, ""@, rank_of(rps)),
    {
        if self.serious {
            return "";
        }
        if rps <= 100 {
            "Farmer"
        } else if rps <= 500 {
            "Krillin"
        } else if rps <= 1_000 {
            "Piccolo"
        } else if rps <= 5_000 {
            "Vegeta"
        } else if rps <= 9_000 {
            "Goku"
        } else {
            "OVER 9000"
        }
    }

    /// The status line while starting.
    pub fn status_initializing(&self) -> (s: &'static str)
        ensures
            s@ == pick(self.serious, "Initializing..."@, "Powering up..."@),
    {
        if self.serious {
            "Initializing..."
        } else {
            "Powering up..."
        }
    }

    /// The status line while running with `concurrency` workers.
    pub fn status_running(&self, concurrency: u32) -> (s: String)
        ensures
            s@ == pick(
                self.serious,
                "Running ("@ + decimal(concurrency as nat) + " workers)"@,
                "KAIOKEN x"@ + decimal(concurrency as nat),
            ),
    {
        let mut v: Vec<char> = Vec::new();
        if self.serious {
            extend_str(&mut v, "Running (");
            push_decimal(&mut v, concurrency as u64);
            extend_str(&mut v, " workers)");
        } else {
            extend_str(&mut v, "KAIOKEN x");
            push_decimal(&mut v, concurrency as u64);
        }
        string_of(v.as_slice())
    }

    /// The status line when the error rate is high.
    pub fn status_error_high(&self) -> (s: &'static str)
        ensures
            s@ == pick(self.serious, "High error rate!"@, "Senzu needed!"@),
    {
        if self.serious {
            "High error rate!"
        } else {
            "Senzu needed!"
        }
    }

    /// The status line after cancellation.
    pub fn status_cancelled(&self) -> (s: &'static str)
        ensures
            s@ == pick(self.serious, "Cancelled"@, "K.O."@),
    {
        if self.serious {
            "Cancelled"
        } else {
            "K.O."
        }
    }

    /// The status line after completion.
    pub fn status_completed(&self) -> (s: &'static str)
        ensures
            s@ == pick(self.serious, "Completed"@, "Victory!"@),
    {
        if self.serious {
            "Completed"
        } else {
            "Victory!"
        }
    }

    /// The title of the run.
    pub fn title(&self) -> (s: &'static str)
        ensures
            s@ == pick(self.serious, "Load Test"@, "KAIOKEN"@),
    {
        if self.serious {
            "Load Test"
        } else {
            "KAIOKEN"
        }
    }

    /// The title of the throughput panel.
    pub fn power_level_title(&self) -> (s: &'static str)
        ensures
            s@ == pick(self.serious, "Throughput"@, "POWER LEVEL"@),
    {
        if self.serious {
            "Throughput"
        } else {
            "POWER LEVEL"
        }
    }

    /// The word for an improved metric.
    pub fn improvement_indicator(&self) -> (s: &'static str)
        ensures
            s@ == pick(self.serious, "IMPROVED"@, "POWER UP"@),
    {
        if self.serious {
            "IMPROVED"
        } else {
            "POWER UP"
        }
    }

    /// The word for a regressed metric.
    pub fn regression_indicator(&self) -> (s: &'static str)
        ensures
            s@ == pick(self.serious, "REGRESSED"@, "DRAIN"@),
    {
        if self.serious {
            "REGRESSED"
        } else {
            "DRAIN"
        }
    }
}

/// The colour themes, in the order in which the `t` key cycles them.
#[derive(Debug, Clone, Copy, PartialEq, Eq, Structural)]
pub enum ThemeMode {
    Earth,
    Namek,
    Vegeta,
    TimeChamber,
    Tournament,
    Frieza,
}

/// The position of each theme in the cycle.
pub open spec fn theme_position(m: ThemeMode) -> nat {
    match m {
        ThemeMode::Earth => 0,
        ThemeMode::Namek => 1,
        ThemeMode::Vegeta => 2,
        ThemeMode::TimeChamber => 3,
        ThemeMode::Tournament => 4,
        ThemeMode::Frieza => 5,
    }
}

/// The theme after `m`.
pub open spec fn next_theme(m: ThemeMode) -> ThemeMode {
    match m {
        ThemeMode::Earth => ThemeMode::Namek,
        ThemeMode::Namek => ThemeMode::Vegeta,
        ThemeMode::Vegeta => ThemeMode::TimeChamber,
        ThemeMode::TimeChamber => ThemeMode::Tournament,
        ThemeMode::Tournament => ThemeMode::Frieza,
        ThemeMode::Frieza => ThemeMode::Earth,
    }
}

/// `m` advanced `k` times.
pub open spec fn advance_theme(m: ThemeMode, k: nat) -> ThemeMode
    decreases k,
{
    if k == 0 {
        m
    } else {
        advance_theme(next_theme(m), (k - 1) as nat)
    }
}

/// The display name of each theme.
pub open spec fn theme_name(m: ThemeMode) -> Seq<char> {
    match m {
        ThemeMode::Earth => "Earth"@,
        ThemeMode::Namek => "Namek"@,
        ThemeMode::Vegeta => "Planet Vegeta"@,
        ThemeMode::TimeChamber => "Time Chamber"@,
        ThemeMode::Tournament => "Tournament"@,
        ThemeMode::Frieza => "Frieza Force"@,
    }
}

impl ThemeMode {
    /// The theme that follows this one.
    pub fn cycle(&self) -> (m: Self)
        ensures
            m == next_theme(*self),
            theme_position(m) == (theme_position(*self) + 1) % 6,
    {
        match self {
            ThemeMode::Earth => ThemeMode::Namek,
            ThemeMode::Namek => ThemeMode::Vegeta,
            ThemeMode::Vegeta => ThemeMode::TimeChamber,
            ThemeMode::TimeChamber => ThemeMode::Tournament,
            ThemeMode::Tournament => ThemeMode::Frieza,
            ThemeMode::Frieza => ThemeMode::Earth,
        }
    }

    /// The display name of this theme.
    pub fn name(&self) -> (s: &'static str)
        ensures
            s@ == theme_name(*self),
    {
        match self {
            ThemeMode::Earth => "Earth",
            ThemeMode::Namek => "Namek",
            ThemeMode::Vegeta => "Planet Vegeta",
            ThemeMode::TimeChamber => "Time Chamber",
            ThemeMode::Tournament => "Tournament",
            ThemeMode::Frieza => "Frieza Force",
        }
    }
}

/// Pressing the theme key six times comes back to the starting theme, and
/// no fewer presses do.
pub proof fn lemma_theme_cycle_period(m: ThemeMode)
    ensures
        advance_theme(m, 6) == m,
        forall|k: nat| 0 < k < 6 ==> #[trigger] advance_theme(m, k) != m,
{
    reveal_with_fuel(advance_theme, 7);
    assert forall|k: nat| 0 < k < 6 implies #[trigger] advance_theme(m, k) != m by {
        reveal_with_fuel(advance_theme, 7);
        assert(k == 1 || k == 2 || k == 3 || k == 4 || k == 5);
    }
}

/// Every theme is reached by cycling from any other.
pub proof fn lemma_theme_cycle_reaches_all(from: ThemeMode, to: ThemeMode)
    ensures
        exists|k: nat| k < 6 && #[trigger] advance_theme(from, k) == to,
{
    reveal_with_fuel(advance_theme, 7);
    let k: nat = ((theme_position(to) + 6 - theme_position(from)) % 6) as nat;
    assert(advance_theme(from, k) == to);
}

} // verus!
