//! The settings of a benchmark run.
use vstd::prelude::*;

use crate::text::{nat_text, texts, u128_text};

verus! {

/// How many errors of retried requests are kept and printed.
pub const PRINT_RETRY_ERROR_LIMIT: u64 = 5;

/// Where the report goes if nothing else is asked for.
pub const DEFAULT_REPORT_PATH: &'static str = ".latte-report.json";

/// The shortest and the longest time to wait between two attempts, in nanoseconds.
#[derive(Debug, Clone, Copy, PartialEq, Eq, Structural)]
pub struct RetryInterval {
    pub min_ns: u128,
    pub max_ns: u128,
}

/// What to do when a query does not return the expected number of rows.
#[derive(Debug, Clone, Copy, PartialEq, Eq, Structural)]
pub enum ValidationStrategy {
    /// Try the query again.
    Retry,
    /// Stop the run.
    FailFast,
    /// Report it and go on.
    Ignore,
}

/// What a benchmark run does.
#[derive(Debug, Clone, Copy, PartialEq, Eq, Structural)]
pub enum Workload {
    Read,
    Write,
}

impl Workload {
    /// The name of the workload.
    pub open spec fn text(self) -> Seq<char> {
        match self {
            Workload::Read => "read"@,
            Workload::Write => "write"@,
        }
    }

    /// Tells the name of the workload.
    pub fn to_text(&self) -> (r: String)
        ensures
            r@ == self.text(),
    {
        match self {
            Workload::Read => "read".to_owned(),
            Workload::Write => "write".to_owned(),
        }
    }
}

/// The settings of a run, but for the rate limit and the sampling period.
#[derive(Debug, PartialEq)]
pub struct Config {
    /// Name of the keyspace
    pub keyspace: String,
    /// Number of non-measured, warmup requests
    pub warmup_count: u64,
    /// Number of measured requests
    pub count: u64,
    /// Total number of distinct rows in the data-set.
    /// Applies to read and write workloads. Defaults to count.
    pub rows: Option<u64>,
    /// Number of I/O threads used by the driver
    pub threads: u32,
    /// Number of connections per io_thread
    pub connections: u32,
    /// Max number of concurrent async requests
    pub parallelism: usize,
    /// Label that will be added to the report to help identifying the test
    pub label: Option<String>,
    /// Path to the output file to store the report in JSON
    pub output: Option<String>,
    /// Workload type
    pub workload: Workload,
    /// List of Cassandra addresses to connect to
    pub addresses: Vec<String>,
}

/// A run of spaces.
pub open spec fn spaces(n: nat) -> Seq<char> {
    Seq::new(n, |i: int| ' ')
}

/// A text that is moved to the right end of a field, where it is shorter than the field.
pub open spec fn right_aligned(text: Seq<char>, width: nat) -> Seq<char> {
    if text.len() < width {
        spaces((width - text.len()) as nat) + text
    } else {
        text
    }
}

/// A number in a field of nine characters.
pub open spec fn number_field(n: nat) -> Seq<char> {
    right_aligned(nat_text(n), 9)
}

/// Moves a text to the right end of a field.
pub fn align_right(text: &str, width: usize) -> (r: String)
    ensures
        r@ == right_aligned(text@, width as nat),
{
    let len: usize = text.unicode_len();
    let mut padding = String::new();
    let mut i: usize = len;
    assert(padding@ =~= spaces(0));
    proof {
        reveal_strlit(" ");
    }
    while i < width
        invariant
            len == text@.len(),
            len <= i,
            len < width ==> i <= width,
            width <= len ==> i == len,
            padding@ == spaces((i - len) as nat),
            " "@ == seq![' '],
        decreases width - i,
    {
        padding.append(" ");
        i += 1;
        assert(padding@ =~= spaces((i - len) as nat));
    }
    padding.append(text);
    assert(padding@ =~= right_aligned(text@, width as nat));
    padding
}

/// Writes a number in a field of nine characters.
fn field_of(n: u128) -> (r: String)
    ensures
        r@ == number_field(n as nat),
{
    align_right(u128_text(n).as_str(), 9)
}

impl Config {
    /// The lines that tell the settings, given the time, and the rate limit and the sampling
    /// period as they are written.
    pub open spec fn lines(
        self,
        time: Seq<char>,
        rate: Option<Seq<char>>,
        sampling_period: Seq<char>,
    ) -> Seq<Seq<char>> {
        seq![
            "CONFIG ==================================================================================="@,
            "               Time: "@ + time,
            "              Label: "@ + (match self.label {
                Some(label) => label@,
                None => Seq::empty(),
            }),
            "           Workload: "@ + self.workload.text(),
            "            Threads: "@ + number_field(self.threads as nat),
            "  Total connections: "@ + number_field((self.threads * self.connections) as nat),
            "         Rate limit: "@ + right_aligned(
                match rate {
                    Some(rate) => rate,
                    None => "-"@,
                },
                9,
            ) + " req/s"@,
            "  Concurrency limit: "@ + number_field(self.parallelism as nat) + " req"@,
            "  Warmup iterations: "@ + number_field(self.warmup_count as nat) + " req"@,
            "Measured iterations: "@ + number_field(self.count as nat) + " req"@,
            "           Sampling: "@ + right_aligned(sampling_period, 9) + " s"@,
            Seq::empty(),
        ]
    }

    /// Tells the settings, line by line.
    pub fn print(&self, time: &str, rate: Option<String>, sampling_period: &str) -> (r: Vec<String>)
        requires
            self.threads * self.connections <= u32::MAX,
        ensures
            texts(r@) == self.lines(
                time@,
                match rate {
                    Some(rate) => Some(rate@),
                    None => None,
                },
                sampling_period@,
            ),
    {
        let label = match &self.label {
            Some(label) => label.clone(),
            None => String::new(),
        };
        let rate_text = match &rate {
            Some(rate) => rate.clone(),
            None => "-".to_owned(),
        };
        let connections: u32 = self.threads * self.connections;
        let mut lines: Vec<String> = Vec::new();
        lines.push(
            "CONFIG ===================================================================================".to_owned(),
        );
        lines.push("               Time: ".to_owned().concat(time));
        lines.push("              Label: ".to_owned().concat(label.as_str()));
        lines.push("           Workload: ".to_owned().concat(self.workload.to_text().as_str()));
        lines.push("            Threads: ".to_owned().concat(field_of(self.threads as u128).as_str()));
        lines.push("  Total connections: ".to_owned().concat(field_of(connections as u128).as_str()));
        lines.push(
            "         Rate limit: ".to_owned().concat(
                align_right(rate_text.as_str(), 9).as_str(),
            ).concat(" req/s"),
        );
        lines.push(
            "  Concurrency limit: ".to_owned().concat(
                field_of(self.parallelism as u128).as_str(),
            ).concat(" req"),
        );
        lines.push(
            "  Warmup iterations: ".to_owned().concat(
                field_of(self.warmup_count as u128).as_str(),
            ).concat(" req"),
        );
        lines.push(
            "Measured iterations: ".to_owned().concat(field_of(self.count as u128).as_str()).concat(
                " req",
            ),
        );
        lines.push(
            "           Sampling: ".to_owned().concat(
                align_right(sampling_period, 9).as_str(),
            ).concat(" s"),
        );
        lines.push(String::new());
        assert(texts(lines@) =~= self.lines(
            time@,
            match rate {
                Some(rate) => Some(rate@),
                None => None,
            },
            sampling_period@,
        ));
        lines
    }

    /// Tells where the report goes.
    pub fn report_path(&self) -> (r: String)
        ensures
            r@ == (match self.output {
                Some(path) => path@,
                None => DEFAULT_REPORT_PATH@,
            }),
    {
        match &self.output {
            Some(path) => path.clone(),
            None => DEFAULT_REPORT_PATH.to_owned(),
        }
    }
}

/// A text in a field keeps all its characters at the end, and has only spaces before them, up to the
/// width of the field.
pub proof fn fields_keep_their_text_at_the_end(text: Seq<char>, width: nat)
    ensures
        ({
            let field = right_aligned(text, width);
            &&& field.len() == (if text.len() < width {
                width
            } else {
                text.len()
            })
            &&& field.skip(field.len() - text.len()) == text
            &&& forall|k: int| 0 <= k < field.len() - text.len() ==> (#[trigger] field[k]) == ' '
        }),
{
    let field = right_aligned(text, width);
    assert(field.skip(field.len() - text.len()) =~= text);
}

/// Every setting is told in a line of its own.
pub proof fn every_setting_is_told(
    config: Config,
    time: Seq<char>,
    rate: Option<Seq<char>>,
    sampling_period: Seq<char>,
)
    ensures
        ({
            let lines = config.lines(time, rate, sampling_period);
            &&& lines.len() == 12
            &&& lines[1] == "               Time: "@ + time
            &&& lines[2] == "              Label: "@ + (match config.label {
                Some(label) => label@,
                None => Seq::empty(),
            })
            &&& lines[3] == "           Workload: "@ + (if config.workload == Workload::Read {
                "read"@
            } else {
                "write"@
            })
            &&& lines[4] == "            Threads: "@ + right_aligned(
                nat_text(config.threads as nat),
                9,
            )
            &&& lines[5] == "  Total connections: "@ + right_aligned(
                nat_text((config.threads * config.connections) as nat),
                9,
            )
            &&& lines[6] == "         Rate limit: "@ + right_aligned(
                match rate {
                    Some(rate) => rate,
                    None => "-"@,
                },
                9,
            ) + " req/s"@
            &&& lines[7] == "  Concurrency limit: "@ + right_aligned(
                nat_text(config.parallelism as nat),
                9,
            ) + " req"@
            &&& lines[8] == "  Warmup iterations: "@ + right_aligned(
                nat_text(config.warmup_count as nat),
                9,
            ) + " req"@
            &&& lines[9] == "Measured iterations: "@ + right_aligned(
                nat_text(config.count as nat),
                9,
            ) + " req"@
            &&& lines[10] == "           Sampling: "@ + right_aligned(sampling_period, 9) + " s"@
        }),
{
}

} // verus!
