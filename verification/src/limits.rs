//! Limits on the files of one ingest.

use crate::text;
use vstd::prelude::*;

verus! {

/// The largest number of files of one ingest, unless configured otherwise.
pub const DEFAULT_MAX_FILE_COUNT: u32 = 40;

/// The largest number of bytes of one file, unless configured otherwise (25 MiB).
pub const DEFAULT_MAX_FILE_BYTES: u64 = 25 * 1024 * 1024;

/// The largest number of bytes of all files, unless configured otherwise (100 MiB).
pub const DEFAULT_MAX_TOTAL_BYTES: u64 = 100 * 1024 * 1024;

/// How many files an ingest may have, and how large they may be.
#[derive(Debug, Clone, Copy, PartialEq, Eq)]
pub struct IngestLimits {
    pub max_file_count: u32,
    pub max_file_bytes: u64,
    pub max_total_bytes: u64,
}

/// The limits of a service that configures none.
pub open spec fn default_limits() -> IngestLimits {
    IngestLimits {
        max_file_count: DEFAULT_MAX_FILE_COUNT,
        max_file_bytes: DEFAULT_MAX_FILE_BYTES,
        max_total_bytes: DEFAULT_MAX_TOTAL_BYTES,
    }
}

impl Default for IngestLimits {
    fn default() -> (r: Self)
        ensures
            r == default_limits(),
    {
        IngestLimits {
            max_file_count: DEFAULT_MAX_FILE_COUNT,
            max_file_bytes: DEFAULT_MAX_FILE_BYTES,
            max_total_bytes: DEFAULT_MAX_TOTAL_BYTES,
        }
    }
}

/// A configured number: what the variable says if that is a positive number of
/// at most `max`, else the default.
pub open spec fn configured(variable: Option<Seq<char>>, max: nat, default: nat) -> nat {
    match variable {
        Some(s) => match text::unsigned_value(s, max) {
            Some(n) => if n > 0 {
                n
            } else {
                default
            },
            None => default,
        },
        None => default,
    }
}

/// The value of a configuration variable.
fn configured_number(variable: Option<&str>, max: u64, default: u64) -> (r: u64)
    requires
        default <= max,
    ensures
        r == configured(text::view_of(variable), max as nat, default as nat),
        r <= max,
{
    match variable {
        Some(s) => match text::parse_unsigned(s, max) {
            Some(n) => if n > 0 {
                n
            } else {
                default
            },
            None => default,
        },
        None => default,
    }
}

/// Whether these are the limits that the three variables configure.
pub open spec fn are_configured(
    limits: IngestLimits,
    max_file_count: Option<Seq<char>>,
    max_file_bytes: Option<Seq<char>>,
    max_total_bytes: Option<Seq<char>>,
) -> bool {
    &&& limits.max_file_count == configured(
        max_file_count,
        u32::MAX as nat,
        DEFAULT_MAX_FILE_COUNT as nat,
    )
    &&& limits.max_file_bytes == configured(
        max_file_bytes,
        u64::MAX as nat,
        DEFAULT_MAX_FILE_BYTES as nat,
    )
    &&& limits.max_total_bytes == configured(
        max_total_bytes,
        u64::MAX as nat,
        DEFAULT_MAX_TOTAL_BYTES as nat,
    )
}

/// The limits that the variables `MAX_FILE_COUNT`, `MAX_FILE_BYTES` and
/// `MAX_TOTAL_BYTES` configure; a missing or invalid one means the default.
pub fn limits_from_env(
    max_file_count: Option<&str>,
    max_file_bytes: Option<&str>,
    max_total_bytes: Option<&str>,
) -> (r: IngestLimits)
    ensures
        are_configured(
            r,
            text::view_of(max_file_count),
            text::view_of(max_file_bytes),
            text::view_of(max_total_bytes),
        ),
{
    IngestLimits {
        max_file_count: configured_number(
            max_file_count,
            u32::MAX as u64,
            DEFAULT_MAX_FILE_COUNT as u64,
        ) as u32,
        max_file_bytes: configured_number(max_file_bytes, u64::MAX, DEFAULT_MAX_FILE_BYTES),
        max_total_bytes: configured_number(max_total_bytes, u64::MAX, DEFAULT_MAX_TOTAL_BYTES),
    }
}

/// Why the files of an ingest are refused.
#[allow(inconsistent_fields)]
#[derive(Debug, Clone, PartialEq, Eq)]
pub enum LimitError {
    NoFiles,
    TooManyFiles { count: u32, max: u32 },
    EmptyFile { index: usize },
    FileTooLarge { index: usize, bytes: u64, max: u64 },
    TotalTooLarge { bytes: u64, max: u64 },
}

/// The sum of the sizes.
pub open spec fn total(sizes: Seq<u64>) -> nat
    decreases sizes.len(),
{
    if sizes.len() == 0 {
        0
    } else {
        total(sizes.drop_last()) + sizes.last() as nat
    }
}

/// The sum of the sizes, or the largest 64-bit number where it is larger.
pub open spec fn capped_total(sizes: Seq<u64>) -> nat {
    if total(sizes) <= u64::MAX {
        total(sizes)
    } else {
        u64::MAX as nat
    }
}

/// A size that one file may have.
pub open spec fn size_fits(size: u64, max: u64) -> bool {
    0 < size <= max
}

/// The number of files before the first that does not fit.
pub open spec fn fitting(sizes: Seq<u64>, max: u64) -> nat
    decreases sizes.len(),
{
    if sizes.len() == 0 || !size_fits(sizes[0], max) {
        0
    } else {
        1 + fitting(sizes.drop_first(), max)
    }
}

/// A number of files as an error reports it: the largest 32-bit number stands
/// for every larger one.
pub open spec fn reported_count(count: usize) -> u32 {
    if count <= u32::MAX {
        count as u32
    } else {
        u32::MAX
    }
}

/// What is wrong with `count` files of these sizes.
pub open spec fn limit_outcome(count: usize, sizes: Seq<u64>, limits: IngestLimits) -> Result<
    (),
    LimitError,
> {
    let good = fitting(sizes, limits.max_file_bytes) as int;
    if count == 0 {
        Err(LimitError::NoFiles)
    } else if count > limits.max_file_count {
        Err(
            LimitError::TooManyFiles { count: reported_count(count), max: limits.max_file_count },
        )
    } else if good < sizes.len() && sizes[good] == 0 {
        Err(LimitError::EmptyFile { index: good as usize })
    } else if good < sizes.len() {
        Err(
            LimitError::FileTooLarge {
                index: good as usize,
                bytes: sizes[good],
                max: limits.max_file_bytes,
            },
        )
    } else if capped_total(sizes) > limits.max_total_bytes {
        Err(
            LimitError::TotalTooLarge {
                bytes: capped_total(sizes) as u64,
                max: limits.max_total_bytes,
            },
        )
    } else {
        Ok(())
    }
}

/// Where the first file stands that does not fit.
proof fn lemma_fitting_is(sizes: Seq<u64>, max: u64, n: int)
    requires
        0 <= n <= sizes.len(),
        forall|i: int| 0 <= i < n ==> size_fits(#[trigger] sizes[i], max),
        n < sizes.len() ==> !size_fits(sizes[n], max),
    ensures
        fitting(sizes, max) == n,
    decreases sizes.len(),
{
    if n > 0 {
        assert(size_fits(sizes[0], max));
        let rest = sizes.drop_first();
        assert forall|i: int| 0 <= i < n - 1 implies size_fits(#[trigger] rest[i], max) by {
            assert(rest[i] == sizes[i + 1]);
        }
        lemma_fitting_is(rest, max, n - 1);
    }
}

/// Checks the number of files, the size of each and the size of all.
pub fn check_file_limits(count: usize, sizes: &[u64], limits: &IngestLimits) -> (r: Result<
    (),
    LimitError,
>)
    ensures
        r == limit_outcome(count, sizes@, *limits),
{
    if count == 0 {
        return Err(LimitError::NoFiles);
    }
    if count as u64 > limits.max_file_count as u64 {
        let count: u32 = if count as u64 <= u32::MAX as u64 {
            count as u32
        } else {
            u32::MAX
        };
        return Err(LimitError::TooManyFiles { count, max: limits.max_file_count });
    }
    let mut sum: u64 = 0;
    let mut i: usize = 0;
    assert(sizes@.take(0) =~= Seq::<u64>::empty());
    while i < sizes.len()
        invariant
            count != 0,
            count <= limits.max_file_count,
            i <= sizes@.len(),
            forall|j: int| 0 <= j < i ==> size_fits(#[trigger] sizes@[j], limits.max_file_bytes),
            sum == capped_total(sizes@.take(i as int)),
        decreases sizes@.len() - i,
    {
        let size: u64 = sizes[i];
        if size == 0 {
            proof {
                lemma_fitting_is(sizes@, limits.max_file_bytes, i as int);
            }
            return Err(LimitError::EmptyFile { index: i });
        }
        if size > limits.max_file_bytes {
            proof {
                lemma_fitting_is(sizes@, limits.max_file_bytes, i as int);
            }
            return Err(
                LimitError::FileTooLarge { index: i, bytes: size, max: limits.max_file_bytes },
            );
        }
        proof {
            assert(sizes@.take(i + 1).drop_last() =~= sizes@.take(i as int));
            assert(sizes@.take(i + 1).last() == size);
        }
        sum = sum.saturating_add(size);
        i += 1;
    }
    proof {
        lemma_fitting_is(sizes@, limits.max_file_bytes, i as int);
        assert(sizes@.take(i as int) =~= sizes@);
    }
    if sum > limits.max_total_bytes {
        return Err(LimitError::TotalTooLarge { bytes: sum, max: limits.max_total_bytes });
    }
    Ok(())
}

/// The message about a refused ingest.
pub open spec fn limit_message(e: LimitError) -> Seq<char> {
    match e {
        LimitError::NoFiles => "no files"@,
        LimitError::TooManyFiles { count, max } => "too many files: "@ + text::decimal(count as nat)
            + " > max "@ + text::decimal(max as nat),
        LimitError::EmptyFile { index } => "empty file at index "@ + text::decimal(index as nat),
        LimitError::FileTooLarge { index, bytes, max } => "file "@ + text::decimal(index as nat)
            + " too large: "@ + text::decimal(bytes as nat) + " > max "@ + text::decimal(
            max as nat,
        ),
        LimitError::TotalTooLarge { bytes, max } => "total bytes too large: "@ + text::decimal(
            bytes as nat,
        ) + " > max "@ + text::decimal(max as nat),
    }
}

impl LimitError {
    /// The message for the caller.
    pub fn message(&self) -> (r: String)
        ensures
            r@ == limit_message(*self),
    {
        match self {
            LimitError::NoFiles => "no files".to_owned(),
            LimitError::TooManyFiles { count, max } => {
                let mut out = "too many files: ".to_owned();
                out.append(text::decimal_text(*count as u64).as_str());
                out.append(" > max ");
                out.append(text::decimal_text(*max as u64).as_str());
                out
            },
            LimitError::EmptyFile { index } => {
                text::concat2("empty file at index ", text::decimal_text(*index as u64).as_str())
            },
            LimitError::FileTooLarge { index, bytes, max } => {
                let mut out = "file ".to_owned();
                out.append(text::decimal_text(*index as u64).as_str());
                out.append(" too large: ");
                out.append(text::decimal_text(*bytes).as_str());
                out.append(" > max ");
                out.append(text::decimal_text(*max).as_str());
                out
            },
            LimitError::TotalTooLarge { bytes, max } => {
                let mut out = "total bytes too large: ".to_owned();
                out.append(text::decimal_text(*bytes).as_str());
                out.append(" > max ");
                out.append(text::decimal_text(*max).as_str());
                out
            },
        }
    }
}

/// Accepted files are at least one and no more than allowed, none is empty or
/// too large, and together they keep to the total, unless that is the largest
/// 64-bit number.
pub proof fn law_accepted_files(count: usize, sizes: Seq<u64>, limits: IngestLimits)
    requires
        limit_outcome(count, sizes, limits) is Ok,
    ensures
        0 < count,
        count <= limits.max_file_count,
        forall|i: int| 0 <= i < sizes.len() ==> 0 < #[trigger] sizes[i] <= limits.max_file_bytes,
        limits.max_total_bytes < u64::MAX ==> total(sizes) <= limits.max_total_bytes,
{
    lemma_all_fit(sizes, limits.max_file_bytes);
}

proof fn lemma_all_fit(sizes: Seq<u64>, max: u64)
    requires
        fitting(sizes, max) >= sizes.len(),
    ensures
        forall|i: int| 0 <= i < sizes.len() ==> 0 < #[trigger] sizes[i] <= max,
    decreases sizes.len(),
{
    if sizes.len() > 0 {
        lemma_all_fit(sizes.drop_first(), max);
        assert forall|i: int| 0 <= i < sizes.len() implies 0 < #[trigger] sizes[i] <= max by {
            if i > 0 {
                assert(sizes[i] == sizes.drop_first()[i - 1]);
            }
        }
    }
}

/// Why files are refused: there are none, there are too many, or the first one
/// that is empty or too large, or all together are too large.
pub proof fn law_limit_faults(count: usize, sizes: Seq<u64>, limits: IngestLimits, i: int)
    requires
        sizes.len() <= usize::MAX,
    ensures
        count == 0 ==> limit_outcome(count, sizes, limits) == refused(LimitError::NoFiles),
        count > limits.max_file_count ==> limit_outcome(count, sizes, limits) == refused(
            LimitError::TooManyFiles {
                count: if count <= 0xffff_ffff {
                    count as u32
                } else {
                    0xffff_ffff
                },
                max: limits.max_file_count,
            },
        ),
        0 < count <= limits.max_file_count && 0 <= i < sizes.len() && (forall|j: int|
            0 <= j < i ==> 0 < #[trigger] sizes[j] <= limits.max_file_bytes) ==> {
            &&& sizes[i] == 0 ==> limit_outcome(count, sizes, limits) == refused(
                LimitError::EmptyFile { index: i as usize },
            )
            &&& sizes[i] > limits.max_file_bytes ==> limit_outcome(count, sizes, limits) == refused(
                LimitError::FileTooLarge {
                    index: i as usize,
                    bytes: sizes[i],
                    max: limits.max_file_bytes,
                },
            )
        },
        0 < count <= limits.max_file_count && (forall|j: int|
            0 <= j < sizes.len() ==> 0 < #[trigger] sizes[j] <= limits.max_file_bytes) ==> {
            &&& total(sizes) <= limits.max_total_bytes ==> limit_outcome(count, sizes, limits) is Ok
            &&& limits.max_total_bytes < total(sizes) <= u64::MAX ==> limit_outcome(
                count,
                sizes,
                limits,
            ) == refused(
                LimitError::TotalTooLarge {
                    bytes: total(sizes) as u64,
                    max: limits.max_total_bytes,
                },
            )
        },
{
    if 0 <= i < sizes.len() && (forall|j: int|
        0 <= j < i ==> 0 < #[trigger] sizes[j] <= limits.max_file_bytes) && !size_fits(
        sizes[i],
        limits.max_file_bytes,
    ) {
        lemma_fitting_is(sizes, limits.max_file_bytes, i);
    }
    if forall|j: int| 0 <= j < sizes.len() ==> 0 < #[trigger] sizes[j] <= limits.max_file_bytes {
        lemma_fitting_is(sizes, limits.max_file_bytes, sizes.len() as int);
    }
}

/// Refused files.
pub open spec fn refused(fault: LimitError) -> Result<(), LimitError> {
    Err(fault)
}

/// The total adds up: nothing for no files, and each file its size.
pub proof fn law_total_adds_up(sizes: Seq<u64>, size: u64)
    ensures
        total(Seq::<u64>::empty()) == 0,
        total(sizes.push(size)) == total(sizes) + size,
        capped_total(sizes) <= u64::MAX,
        total(sizes) <= u64::MAX ==> capped_total(sizes) == total(sizes),
{
    assert(sizes.push(size).drop_last() =~= sizes);
}

/// What a service allows that configures nothing: forty files, 25 MiB each, and
/// 100 MiB together; a variable counts only where it is a positive number.
pub proof fn law_configured_limits(variable: Seq<char>, max: nat, default: nat)
    ensures
        default_limits().max_file_count == 40,
        default_limits().max_file_bytes == 26_214_400,
        default_limits().max_total_bytes == 104_857_600,
        configured(None, max, default) == default,
        text::unsigned_value(variable, max) is None ==> configured(Some(variable), max, default)
            == default,
        text::unsigned_value(variable, max) == Some(0nat) ==> configured(
            Some(variable),
            max,
            default,
        ) == default,
        text::unsigned_value(variable, max) is Some && text::unsigned_value(variable, max)->0 > 0
            ==> Some(configured(Some(variable), max, default)) == text::unsigned_value(
            variable,
            max,
        ),
{
}

/// Each variable sets its own limit to the positive number that it writes, as far
/// as the limit can hold it; a variable that is absent, or not a number, leaves the
/// default of its own limit.
pub proof fn law_each_variable_sets_its_limit(
    limits: IngestLimits,
    count: Option<Seq<char>>,
    bytes: Option<Seq<char>>,
    total: Option<Seq<char>>,
    n: nat,
)
    requires
        are_configured(limits, count, bytes, total),
    ensures
        count == Some(text::decimal(n)) && 0 < n <= 0xffff_ffff ==> limits.max_file_count == n,
        count == Some(text::decimal(n)) && n > 0xffff_ffff ==> limits.max_file_count == 40,
        bytes == Some(text::decimal(n)) && 0 < n <= 0xffff_ffff_ffff_ffff ==> limits.max_file_bytes
            == n,
        total == Some(text::decimal(n)) && 0 < n <= 0xffff_ffff_ffff_ffff
            ==> limits.max_total_bytes == n,
        count is None || !text::all_digits(count->0) && !text::all_digits(count->0.drop_first())
            ==> limits.max_file_count == 40,
        bytes is None || !text::all_digits(bytes->0) && !text::all_digits(bytes->0.drop_first())
            ==> limits.max_file_bytes == 26_214_400,
        total is None || !text::all_digits(total->0) && !text::all_digits(total->0.drop_first())
            ==> limits.max_total_bytes == 104_857_600,
        count == Some(text::decimal(0)) ==> limits.max_file_count == 40,
        bytes == Some(text::decimal(0)) ==> limits.max_file_bytes == 26_214_400,
        total == Some(text::decimal(0)) ==> limits.max_total_bytes == 104_857_600,
{
    text::lemma_decimal_value(n);
    text::lemma_decimal_value(0);
    assert(text::ascii_digit(text::decimal(n)[0]));
    assert(text::ascii_digit(text::decimal(0)[0]));
}

} // verus!
