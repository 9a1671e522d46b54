//! Options and pass/fail rules of the opt-in measurement run: which command
//! line arguments enable it, what the scripted workload does on each timer
//! tick, and when a finished run is accepted.
use vstd::prelude::*;

verus! {

/// Run length when none is given, in seconds.
pub const DEFAULT_SECONDS: u64 = 5;

/// Longest run accepted, in seconds.
pub const MAX_SECONDS: u64 = 300;

/// Scripted activity during a measurement run.
#[derive(Clone, Copy, Debug, PartialEq, Eq)]
pub enum Workload {
    /// The window only renders.
    Idle,
    /// The filter cutoff is edited on every tick.
    Controls,
    /// Every modulation target is routed once, on the first tick.
    Modulation,
    /// The window is resized every fifteen ticks.
    Resize,
}

/// Measurement options read from the command line.
#[derive(Clone, Copy, Debug, PartialEq, Eq)]
pub struct Performance {
    pub enabled: bool,
    pub seconds: u64,
    pub workload: Workload,
    pub no_audio: bool,
}

pub open spec fn is_digit(c: char) -> bool {
    48 <= (c as int) <= 57
}

/// Value of a run of decimal digits.
pub open spec fn digits_value(s: Seq<char>) -> int
    decreases s.len(),
{
    if s.len() == 0 {
        0
    } else {
        10 * digits_value(s.drop_last()) + ((s.last() as int) - 48)
    }
}

/// The text after an optional leading `+`.
pub open spec fn unsigned_part(s: Seq<char>) -> Seq<char> {
    if s.len() > 0 && s[0] == '+' {
        s.drop_first()
    } else {
        s
    }
}

pub open spec fn all_digits(s: Seq<char>) -> bool {
    forall|i: int| 0 <= i < s.len() ==> is_digit(#[trigger] s[i])
}

/// Decimal text of a `u64`: an optional `+`, at least one digit, and a value
/// that fits.
pub open spec fn spec_parse_u64(s: Seq<char>) -> Option<u64> {
    let d = unsigned_part(s);
    if d.len() > 0 && all_digits(d) && digits_value(d) <= u64::MAX {
        Some(digits_value(d) as u64)
    } else {
        None
    }
}

proof fn lemma_digits_value_grows(s: Seq<char>, k: int)
    requires
        0 <= k <= s.len(),
        forall|i: int| 0 <= i < s.len() ==> is_digit(#[trigger] s[i]),
    ensures
        0 <= digits_value(s.subrange(0, k)) <= digits_value(s),
    decreases s.len(),
{
    if k == s.len() {
        assert(s.subrange(0, k) =~= s);
        lemma_digits_value_nonnegative(s);
    } else {
        let p = s.drop_last();
        assert(p.subrange(0, k) =~= s.subrange(0, k));
        lemma_digits_value_grows(p, k);
        assert(is_digit(s[s.len() - 1]));
    }
}

proof fn lemma_digits_value_nonnegative(s: Seq<char>)
    requires
        forall|i: int| 0 <= i < s.len() ==> is_digit(#[trigger] s[i]),
    ensures
        digits_value(s) >= 0,
    decreases s.len(),
{
    if s.len() > 0 {
        let p = s.drop_last();
        assert forall|i: int| 0 <= i < p.len() implies is_digit(#[trigger] p[i]) by {
            assert(p[i] == s[i]);
        }
        lemma_digits_value_nonnegative(p);
        assert(is_digit(s[s.len() - 1]));
    }
}

/// Whether `s` starts with `prefix`.
fn has_prefix(s: &str, prefix: &str) -> (r: bool)
    ensures
        r == prefix@.is_prefix_of(s@),
{
    let n = s.unicode_len();
    let m = prefix.unicode_len();
    if m > n {
        return false;
    }
    let mut i: usize = 0;
    while i < m
        invariant
            i <= m <= n,
            n == s@.len(),
            m == prefix@.len(),
            forall|j: int| 0 <= j < i ==> prefix@[j] == s@[j],
        decreases m - i,
    {
        if s.get_char(i) != prefix.get_char(i) {
            assert(prefix@[i as int] != s@.subrange(0, m as int)[i as int]);
            return false;
        }
        i = i + 1;
    }
    assert(prefix@ =~= s@.subrange(0, m as int));
    true
}

/// Reads the decimal `u64` written from char `start` to the end of `s`.
fn parse_u64_from(s: &str, start: usize) -> (r: Option<u64>)
    requires
        start <= s@.len(),
    ensures
        r == spec_parse_u64(s@.subrange(start as int, s@.len() as int)),
{
    let ghost t = s@.subrange(start as int, s@.len() as int);
    let n = s.unicode_len();
    let mut first = start;
    if first < n && s.get_char(first) == '+' {
        first = first + 1;
    }
    let ghost d = s@.subrange(first as int, n as int);
    assert(d =~= unsigned_part(t));
    if first == n {
        return None;
    }
    let mut value: u64 = 0;
    let mut i: usize = first;
    while i < n
        invariant
            start <= first <= i <= n,
            n == s@.len(),
            d == s@.subrange(first as int, n as int),
            t == s@.subrange(start as int, s@.len() as int),
            d == unsigned_part(t),
            d.len() > 0,
            forall|j: int| 0 <= j < i - first ==> is_digit(#[trigger] d[j]),
            value == digits_value(d.subrange(0, i - first)),
        decreases n - i,
    {
        let c = s.get_char(i);
        let code = c as u32;
        assert(code as int == c as int);
        if code < 48 || code > 57 {
            assert(!is_digit(d[i - first]));
            return None;
        }
        let ghost k = i - first;
        assert(d.subrange(0, k + 1).drop_last() =~= d.subrange(0, k));
        assert(d.subrange(0, k + 1).last() == d[k]);
        let digit = (code - 48) as u64;
        let grown = value.checked_mul(10);
        match grown {
            None => {
                proof {
                    lemma_overflow_has_no_value(d, k + 1, value as int, digit as int);
                }
                return None;
            },
            Some(tens) => {
                let next = tens.checked_add(digit);
                match next {
                    None => {
                        proof {
                            lemma_overflow_has_no_value(d, k + 1, value as int, digit as int);
                        }
                        return None;
                    },
                    Some(v) => {
                        value = v;
                    },
                }
            },
        }
        i = i + 1;
    }
    assert(d.subrange(0, d.len() as int) =~= d);
    Some(value)
}

/// Once the digits read so far exceed `u64`, no continuation of them fits.
proof fn lemma_overflow_has_no_value(d: Seq<char>, k: int, value: int, digit: int)
    requires
        0 < k <= d.len(),
        value == digits_value(d.subrange(0, k - 1)),
        digits_value(d.subrange(0, k)) == 10 * value + digit,
        10 * value + digit > u64::MAX,
        forall|j: int| 0 <= j < k ==> is_digit(#[trigger] d[j]),
    ensures
        !(all_digits(d) && digits_value(d) <= u64::MAX),
{
    if all_digits(d) {
        lemma_digits_value_grows(d, k);
    }
}

/// Options before any argument is read: disabled, five seconds, idle.
pub open spec fn defaults() -> Performance {
    Performance {
        enabled: false,
        seconds: DEFAULT_SECONDS,
        workload: Workload::Idle,
        no_audio: false,
    }
}

pub open spec fn seconds_flag() -> Seq<char> {
    "--perf-seconds="@
}

/// The options after one more argument, or the error it raises.
pub open spec fn apply_arg(p: Performance, arg: Seq<char>) -> Result<Performance, Seq<char>> {
    if arg == "--perf"@ {
        Ok(Performance { enabled: true, ..p })
    } else if arg == "--perf-no-audio"@ {
        Ok(Performance { no_audio: true, ..p })
    } else if arg == "--perf-workload=idle"@ {
        Ok(Performance { workload: Workload::Idle, ..p })
    } else if arg == "--perf-workload=controls"@ {
        Ok(Performance { workload: Workload::Controls, ..p })
    } else if arg == "--perf-workload=modulation"@ {
        Ok(Performance { workload: Workload::Modulation, ..p })
    } else if arg == "--perf-workload=resize"@ {
        Ok(Performance { workload: Workload::Resize, ..p })
    } else if seconds_flag().is_prefix_of(arg) {
        match spec_parse_u64(arg.subrange(seconds_flag().len() as int, arg.len() as int)) {
            None => Err("Invalid performance duration"@),
            Some(n) => if 1 <= n <= MAX_SECONDS {
                Ok(Performance { seconds: n, ..p })
            } else {
                Err("Performance duration must be 1..300 seconds"@)
            },
        }
    } else {
        Err("Unknown argument: "@ + arg)
    }
}

/// Reads `args[i..]` in order; the first bad argument stops the scan.
pub open spec fn scan_args(p: Performance, args: Seq<Seq<char>>, i: int) -> Result<
    Performance,
    Seq<char>,
>
    decreases args.len() - i,
{
    if 0 <= i < args.len() {
        match apply_arg(p, args[i]) {
            Ok(q) => scan_args(q, args, i + 1),
            Err(e) => Err(e),
        }
    } else {
        Ok(p)
    }
}

/// The options named by the arguments after the program name. The
/// duration, workload and audio options are refused unless `--perf` is
/// given too.
pub open spec fn spec_performance(args: Seq<Seq<char>>) -> Result<Performance, Seq<char>> {
    match scan_args(defaults(), args, 0) {
        Ok(p) => if !p.enabled && (p.no_audio || p.workload != Workload::Idle || p.seconds
            != DEFAULT_SECONDS) {
            Err("Performance options require --perf"@)
        } else {
            Ok(p)
        },
        Err(e) => Err(e),
    }
}

pub open spec fn arg_views(args: Seq<String>) -> Seq<Seq<char>> {
    args.map_values(|a: String| a@)
}

fn apply_arg_exec(p: Performance, arg: &String) -> (r: Result<Performance, String>)
    ensures
        match r {
            Ok(q) => apply_arg(p, arg@) == Ok::<Performance, Seq<char>>(q),
            Err(e) => apply_arg(p, arg@) == Err::<Performance, Seq<char>>(e@),
        },
{
    if arg.eq(&String::from_str("--perf")) {
        return Ok(Performance { enabled: true, ..p });
    }
    if arg.eq(&String::from_str("--perf-no-audio")) {
        return Ok(Performance { no_audio: true, ..p });
    }
    if arg.eq(&String::from_str("--perf-workload=idle")) {
        return Ok(Performance { workload: Workload::Idle, ..p });
    }
    if arg.eq(&String::from_str("--perf-workload=controls")) {
        return Ok(Performance { workload: Workload::Controls, ..p });
    }
    if arg.eq(&String::from_str("--perf-workload=modulation")) {
        return Ok(Performance { workload: Workload::Modulation, ..p });
    }
    if arg.eq(&String::from_str("--perf-workload=resize")) {
        return Ok(Performance { workload: Workload::Resize, ..p });
    }
    let flag = "--perf-seconds=";
    if has_prefix(arg.as_str(), flag) {
        let skip = flag.unicode_len();
        match parse_u64_from(arg.as_str(), skip) {
            None => Err(String::from_str("Invalid performance duration")),
            Some(n) => {
                if 1 <= n && n <= MAX_SECONDS {
                    Ok(Performance { seconds: n, ..p })
                } else {
                    Err(String::from_str("Performance duration must be 1..300 seconds"))
                }
            },
        }
    } else {
        Err(String::from_str("Unknown argument: ").concat(arg.as_str()))
    }
}

impl Performance {
    /// Reads the arguments after the program name.
    pub fn new(args: &Vec<String>) -> (r: Result<Performance, String>)
        ensures
            match r {
                Ok(p) => spec_performance(arg_views(args@)) == Ok::<Performance, Seq<char>>(p),
                Err(e) => spec_performance(arg_views(args@)) == Err::<Performance, Seq<char>>(e@),
            },
    {
        let ghost view = arg_views(args@);
        let mut p = Performance {
            enabled: false,
            seconds: DEFAULT_SECONDS,
            workload: Workload::Idle,
            no_audio: false,
        };
        let mut i: usize = 0;
        while i < args.len()
            invariant
                i <= args.len(),
                view == arg_views(args@),
                view.len() == args.len(),
                scan_args(p, view, i as int) == scan_args(defaults(), view, 0),
            decreases args.len() - i,
        {
            assert(view[i as int] == args@[i as int]@);
            match apply_arg_exec(p, &args[i]) {
                Ok(q) => {
                    p = q;
                },
                Err(e) => {
                    return Err(e);
                },
            }
            i = i + 1;
        }
        if !p.enabled && (p.no_audio || !matches!(p.workload, Workload::Idle) || p.seconds
            != DEFAULT_SECONDS) {
            return Err(String::from_str("Performance options require --perf"));
        }
        Ok(p)
    }
}

/// Every accepted option set is either a measurement run or the defaults.
pub proof fn law_options_need_perf(args: Seq<Seq<char>>)
    ensures
        spec_performance(args) matches Ok(p) ==> p.enabled || p == defaults(),
        spec_performance(args) matches Ok(p) ==> 1 <= p.seconds <= MAX_SECONDS,
{
    lemma_scan_keeps_seconds_in_range(defaults(), args, 0);
}

proof fn lemma_scan_keeps_seconds_in_range(p: Performance, args: Seq<Seq<char>>, i: int)
    requires
        1 <= p.seconds <= MAX_SECONDS,
    ensures
        scan_args(p, args, i) matches Ok(q) ==> 1 <= q.seconds <= MAX_SECONDS,
    decreases args.len() - i,
{
    if 0 <= i < args.len() {
        if let Ok(q) = apply_arg(p, args[i]) {
            lemma_scan_keeps_seconds_in_range(q, args, i + 1);
        }
    }
}

/// What the scripted workload does on one timer tick.
#[derive(Clone, Copy, Debug, PartialEq, Eq)]
pub enum WorkloadStep {
    Nothing,
    /// Edit global control 6, the filter cutoff, to its high or low test value.
    EditCutoff { high: bool },
    /// Route both test sources to every modulation target.
    RouteEverything,
    /// Resize the window to its compact or its large test size.
    Resize { compact: bool },
}

pub open spec fn spec_step(workload: Workload, tick: u64) -> WorkloadStep {
    match workload {
        Workload::Idle => WorkloadStep::Nothing,
        Workload::Controls => WorkloadStep::EditCutoff { high: tick % 2 == 1 },
        Workload::Modulation => if tick == 0 {
            WorkloadStep::RouteEverything
        } else {
            WorkloadStep::Nothing
        },
        Workload::Resize => if tick % 15 == 0 {
            WorkloadStep::Resize { compact: tick % 30 == 0 }
        } else {
            WorkloadStep::Nothing
        },
    }
}

/// The scripted workloads: idle does nothing; the controls workload edits
/// the cutoff on every tick, alternating low (even ticks) and high (odd
/// ticks); the modulation workload routes every target exactly once, on the
/// first tick; the resize workload resizes every fifteenth tick, to the
/// compact size on every thirtieth.
pub proof fn law_workload_schedule(tick: u64)
    ensures
        spec_step(Workload::Idle, tick) == WorkloadStep::Nothing,
        spec_step(Workload::Controls, tick) == (WorkloadStep::EditCutoff { high: tick % 2 == 1 }),
        spec_step(Workload::Modulation, tick) == WorkloadStep::RouteEverything <==> tick == 0,
        spec_step(Workload::Modulation, tick) != WorkloadStep::RouteEverything
            ==> spec_step(Workload::Modulation, tick) == WorkloadStep::Nothing,
        (spec_step(Workload::Resize, tick) is Resize) <==> tick % 15 == 0,
        spec_step(Workload::Resize, tick) matches WorkloadStep::Resize { compact } ==> (compact
            <==> tick % 30 == 0),
        !(spec_step(Workload::Resize, tick) is Resize) ==> spec_step(Workload::Resize, tick)
            == WorkloadStep::Nothing,
{
}

/// Whether `name` is among the recorded stage names.
pub open spec fn has_stage(stages: Seq<Seq<char>>, name: Seq<char>) -> bool {
    exists|i: int| 0 <= i < stages.len() && stages[i] == name
}

/// Why a finished measurement run is refused, if it is.
pub open spec fn spec_run_failure(
    p: Performance,
    first_frame_seen: bool,
    completed: bool,
    stages: Seq<Seq<char>>,
) -> Option<Seq<char>> {
    if !p.enabled {
        None
    } else if !first_frame_seen {
        Some("No rendered frame was observed"@)
    } else if !completed {
        Some("Performance run was closed before completion"@)
    } else if !p.no_audio && (!has_stage(stages, "audio_ready_ms"@) || has_stage(
        stages,
        "audio_failed_ms"@,
    )) {
        Some(
            "Audio did not become ready or failed during measurement; use --perf-no-audio for explicit isolation"@,
        )
    } else {
        None
    }
}

fn contains_stage(stages: &Vec<String>, name: &str) -> (r: bool)
    ensures
        r == has_stage(arg_views(stages@), name@),
{
    let ghost view = arg_views(stages@);
    let wanted = String::from_str(name);
    let mut i: usize = 0;
    while i < stages.len()
        invariant
            i <= stages.len(),
            view == arg_views(stages@),
            view.len() == stages.len(),
            wanted@ == name@,
            forall|j: int| 0 <= j < i ==> view[j] != name@,
        decreases stages.len() - i,
    {
        assert(view[i as int] == stages@[i as int]@);
        if stages[i].eq(&wanted) {
            return true;
        }
        i = i + 1;
    }
    false
}

impl Performance {
    /// The workload's action on timer tick `tick`, counting from zero.
    pub fn step(&self, tick: u64) -> (s: WorkloadStep)
        ensures
            s == spec_step(self.workload, tick),
    {
        match self.workload {
            Workload::Idle => WorkloadStep::Nothing,
            Workload::Controls => WorkloadStep::EditCutoff { high: tick % 2 == 1 },
            Workload::Modulation => {
                if tick == 0 {
                    WorkloadStep::RouteEverything
                } else {
                    WorkloadStep::Nothing
                }
            },
            Workload::Resize => {
                if tick % 15 == 0 {
                    WorkloadStep::Resize { compact: tick % 30 == 0 }
                } else {
                    WorkloadStep::Nothing
                }
            },
        }
    }

    /// Accepts a finished run: a frame was rendered, the run lasted its full
    /// duration, and unless audio was excluded the device became ready
    /// (stage `audio_ready_ms`) and never failed (stage `audio_failed_ms`).
    /// A disabled run is always accepted.
    pub fn check_run(&self, first_frame_seen: bool, completed: bool, stages: &Vec<String>) -> (r:
        Result<(), String>)
        ensures
            match spec_run_failure(*self, first_frame_seen, completed, arg_views(stages@)) {
                None => r is Ok,
                Some(m) => r matches Err(e) && e@ == m,
            },
    {
        if !self.enabled {
            return Ok(());
        }
        if !first_frame_seen {
            return Err(String::from_str("No rendered frame was observed"));
        }
        if !completed {
            return Err(String::from_str("Performance run was closed before completion"));
        }
        if !self.no_audio && (!contains_stage(stages, "audio_ready_ms") || contains_stage(
            stages,
            "audio_failed_ms",
        )) {
            return Err(
                String::from_str(
                    "Audio did not become ready or failed during measurement; use --perf-no-audio for explicit isolation",
                ),
            );
        }
        Ok(())
    }
}

} // verus!
