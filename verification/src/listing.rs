//! The listing of platforms and devices, and how a driver's answers read.
use vstd::prelude::*;
use vstd::string::*;

use crate::text::append_decimal;
use crate::text::decimal;

verus! {

/// The status of a query for kernel argument information that the driver does
/// not keep.
pub const CL_KERNEL_ARG_INFO_NOT_AVAILABLE: i32 = -19;

/// What a driver said when asked for a piece of information.
#[derive(Debug, PartialEq, Eq)]
pub enum InfoAnswer {
    /// The information, as text.
    Info(String),
    /// The query failed.
    Failed {
        /// The driver's status, where the failure is one of the driver.
        status: Option<i32>,
        /// The failure, as text.
        message: String,
    },
}

impl InfoAnswer {
    /// How the answer is shown: the information, or the failure in its own
    /// words, except for information that is not available.
    pub open spec fn shown(self) -> Seq<char> {
        match self {
            InfoAnswer::Info(info) => info@,
            InfoAnswer::Failed { status, message } => if status == Some(
                CL_KERNEL_ARG_INFO_NOT_AVAILABLE,
            ) {
                "Not available"@
            } else {
                message@
            },
        }
    }

    /// The answer as it is shown.
    pub fn text(&self) -> (text: &str)
        ensures
            text@ == self.shown(),
    {
        match self {
            InfoAnswer::Info(info) => info.as_str(),
            InfoAnswer::Failed { status, message } => {
                let unavailable: bool = match status {
                    Some(code) => *code == CL_KERNEL_ARG_INFO_NOT_AVAILABLE,
                    None => false,
                };
                if unavailable {
                    "Not available"
                } else {
                    message.as_str()
                }
            },
        }
    }
}

/// A device, as a driver describes it.
#[derive(Debug, PartialEq, Eq)]
pub struct DeviceEntry {
    pub vendor: InfoAnswer,
    pub name: InfoAnswer,
}

/// A platform, as a driver describes it, with its devices.
#[derive(Debug, PartialEq, Eq)]
pub struct PlatformEntry {
    pub name: InfoAnswer,
    pub version: InfoAnswer,
    /// The devices, or nothing where the driver could not list them.
    pub devices: Option<Vec<DeviceEntry>>,
}

impl PlatformEntry {
    /// The devices that are known.
    pub open spec fn device_list(self) -> Seq<DeviceEntry> {
        match self.devices {
            Some(devices) => devices@,
            None => Seq::empty(),
        }
    }
}

/// What is printed of the platforms and devices.
#[derive(Debug, PartialEq, Eq)]
pub struct Listing {
    /// The lines to print.
    pub lines: Vec<String>,
    /// The platform whose devices could not be listed: after the lines, the
    /// program is to panic.
    pub failed: Option<usize>,
}

/// The line for a platform at position `i`.
pub open spec fn platform_line(i: nat, platform: PlatformEntry) -> Seq<char> {
    "OCL: platform "@ + decimal(i) + ", "@ + platform.name.shown() + " - "@
        + platform.version.shown()
}

/// The line for a device at position `j` of its platform.
pub open spec fn device_line(j: nat, device: DeviceEntry) -> Seq<char> {
    "OCL: device "@ + decimal(j) + ", "@ + device.vendor.shown() + " - "@ + device.name.shown()
}

/// The lines for a platform at position `i`: its own, then one for each of its
/// devices.
pub open spec fn platform_lines(i: nat, platform: PlatformEntry) -> Seq<Seq<char>> {
    seq![platform_line(i, platform)] + Seq::new(
        platform.device_list().len(),
        |j: int| device_line(j as nat, platform.device_list()[j]),
    )
}

/// The lines for all platforms, in order.
pub open spec fn listing(platforms: Seq<PlatformEntry>) -> Seq<Seq<char>>
    decreases platforms.len(),
{
    if platforms.len() == 0 {
        Seq::empty()
    } else {
        listing(platforms.drop_last()) + platform_lines(
            (platforms.len() - 1) as nat,
            platforms.last(),
        )
    }
}

/// The texts of `lines`.
pub open spec fn texts(lines: Seq<String>) -> Seq<Seq<char>> {
    lines.map_values(|line: String| line@)
}

/// One line of the listing.
fn entry_line(label: &str, position: usize, first: &InfoAnswer, second: &InfoAnswer) -> (line:
    String)
    ensures
        line@ == label@ + decimal(position as nat) + ", "@ + first.shown() + " - "@
            + second.shown(),
{
    let mut line: String = String::new();
    line.append(label);
    append_decimal(&mut line, position as u64);
    line.append(", ");
    line.append(first.text());
    line.append(" - ");
    line.append(second.text());
    assert(line@ =~= label@ + decimal(position as nat) + ", "@ + first.shown() + " - "@
        + second.shown());
    line
}

/// Appends the lines for the devices of a platform.
fn list_devices(lines: &mut Vec<String>, devices: &Vec<DeviceEntry>)
    ensures
        texts(final(lines)@) == texts(old(lines)@) + Seq::new(
            devices@.len(),
            |j: int| device_line(j as nat, devices@[j]),
        ),
{
    let ghost before = texts(lines@);
    let ghost block = Seq::new(devices@.len(), |j: int| device_line(j as nat, devices@[j]));
    let mut j: usize = 0;
    assert(before + block.take(0) =~= before);
    while j < devices.len()
        invariant
            j <= devices@.len(),
            block == Seq::new(devices@.len(), |j: int| device_line(j as nat, devices@[j])),
            texts(lines@) == before + block.take(j as int),
        decreases devices@.len() - j,
    {
        let device: &DeviceEntry = &devices[j];
        let ghost shown = lines@;
        lines.push(entry_line("OCL: device ", j, &device.vendor, &device.name));
        assert(texts(lines@) =~= texts(shown).push(block[j as int]));
        assert(block.take(j + 1) =~= block.take(j as int).push(block[j as int]));
        j = j + 1;
        assert(texts(lines@) =~= before + block.take(j as int));
    }
    assert(block.take(j as int) =~= block);
}

/// Lists the platforms of a driver and their devices, a line each. Where the
/// devices of a platform could not be listed, its own line is the last.
pub fn platform_info(platforms: &Vec<PlatformEntry>) -> (report: Listing)
    ensures
        match report.failed {
            None => {
                &&& forall|i: int|
                    0 <= i < platforms@.len() ==> (#[trigger] platforms@[i]).devices is Some
                &&& texts(report.lines@) == listing(platforms@)
            },
            Some(k) => {
                &&& k < platforms@.len()
                &&& platforms@[k as int].devices is None
                &&& forall|i: int| 0 <= i < k ==> (#[trigger] platforms@[i]).devices is Some
                &&& texts(report.lines@) == listing(platforms@.take(k as int)) + seq![
                    platform_line(k as nat, platforms@[k as int]),
                ]
            },
        },
{
    let mut lines: Vec<String> = Vec::new();
    let mut i: usize = 0;
    while i < platforms.len()
        invariant
            i <= platforms@.len(),
            forall|k: int| 0 <= k < i ==> (#[trigger] platforms@[k]).devices is Some,
            texts(lines@) == listing(platforms@.take(i as int)),
        decreases platforms@.len() - i,
    {
        let platform: &PlatformEntry = &platforms[i];
        let ghost before = listing(platforms@.take(i as int));
        let ghost line = platform_line(i as nat, *platform);
        lines.push(entry_line("OCL: platform ", i, &platform.name, &platform.version));
        assert(texts(lines@) =~= before + seq![line]);
        match &platform.devices {
            None => {
                return Listing { lines, failed: Some(i) };
            },
            Some(devices) => {
                list_devices(&mut lines, devices);
            },
        }
        assert(texts(lines@) =~= before + platform_lines(i as nat, *platform));
        assert(platforms@.take(i + 1).drop_last() =~= platforms@.take(i as int));
        i = i + 1;
    }
    assert(platforms@.take(i as int) =~= platforms@);
    Listing { lines, failed: None }
}

/// A platform without known devices adds its own line and no other: where the
/// devices of the last platform could not be listed, what is printed is the
/// listing of the platforms before it and the line of that platform.
pub proof fn law_platform_without_devices(platforms: Seq<PlatformEntry>)
    requires
        platforms.len() > 0,
        platforms.last().device_list().len() == 0,
    ensures
        listing(platforms) == listing(platforms.drop_last()) + seq![
            platform_line((platforms.len() - 1) as nat, platforms.last()),
        ],
{
    let n = (platforms.len() - 1) as nat;
    assert(platform_lines(n, platforms.last()) =~= seq![platform_line(n, platforms.last())]);
}

/// How many lines stand before that of the platform at position `i`.
pub open spec fn lines_before(platforms: Seq<PlatformEntry>, i: nat) -> nat
    decreases i,
{
    if i == 0 {
        0
    } else {
        lines_before(platforms, (i - 1) as nat) + 1 + platforms[i - 1].device_list().len()
    }
}

/// The listing has a line for each platform and for each device and no other,
/// in the driver's order; a device stands below its own platform, and each
/// line shows the number by which the entry is selected.
pub proof fn law_each_entry_listed_once(platforms: Seq<PlatformEntry>)
    ensures
        listing(platforms).len() == lines_before(platforms, platforms.len()),
        forall|i: int|
            0 <= i < platforms.len() ==> listing(platforms)[#[trigger] lines_before(
                platforms,
                i as nat,
            ) as int] == platform_line(i as nat, platforms[i]),
        forall|i: int, j: int|
            0 <= i < platforms.len() && 0 <= j < platforms[i].device_list().len()
                ==> listing(platforms)[lines_before(platforms, i as nat) + 1 + j]
                == #[trigger] device_line(j as nat, platforms[i].device_list()[j]),
    decreases platforms.len(),
{
    if platforms.len() > 0 {
        let shorter = platforms.drop_last();
        let n = shorter.len();
        law_each_entry_listed_once(shorter);
        assert forall|i: nat| i <= n implies #[trigger] lines_before(platforms, i) == lines_before(
            shorter,
            i,
        ) by {
            lemma_lines_before_prefix(platforms, shorter, i);
        }
        assert(lines_before(platforms, n) == lines_before(shorter, n));
        assert forall|i: int| 0 <= i < n implies #[trigger] lines_before(shorter, i as nat) + 1
            + shorter[i].device_list().len() <= lines_before(shorter, n) by {
            lemma_lines_before_grow(shorter, i as nat, n);
        }
        assert forall|i: int| 0 <= i < platforms.len() implies listing(
            platforms,
        )[#[trigger] lines_before(platforms, i as nat) as int] == platform_line(
            i as nat,
            platforms[i],
        ) by {
            if i < n {
                assert(shorter[i] == platforms[i]);
            }
        }
        assert forall|i: int, j: int|
            0 <= i < platforms.len() && 0 <= j < platforms[i].device_list().len() implies listing(
            platforms,
        )[lines_before(platforms, i as nat) + 1 + j] == #[trigger] device_line(
            j as nat,
            platforms[i].device_list()[j],
        ) by {
            assert(lines_before(platforms, i as nat) == lines_before(shorter, i as nat));
            if i < n {
                assert(shorter[i] == platforms[i]);
            }
        }
    }
}

proof fn lemma_lines_before_prefix(longer: Seq<PlatformEntry>, shorter: Seq<PlatformEntry>, i: nat)
    requires
        i <= shorter.len() <= longer.len(),
        shorter =~= longer.take(shorter.len() as int),
    ensures
        lines_before(longer, i) == lines_before(shorter, i),
    decreases i,
{
    if i > 0 {
        lemma_lines_before_prefix(longer, shorter, (i - 1) as nat);
    }
}

proof fn lemma_lines_before_grow(platforms: Seq<PlatformEntry>, i: nat, k: nat)
    requires
        i < k <= platforms.len(),
    ensures
        lines_before(platforms, i) + 1 + platforms[i as int].device_list().len() <= lines_before(
            platforms,
            k,
        ),
    decreases k,
{
    if i < k - 1 {
        lemma_lines_before_grow(platforms, i, (k - 1) as nat);
    }
}

/// An answer is shown as the information itself; a failure as its message,
/// except that the driver's status -19 reads "Not available".
pub proof fn law_answers_as_shown(answer: InfoAnswer)
    ensures
        answer matches InfoAnswer::Info(info) ==> answer.shown() == info@,
        answer matches InfoAnswer::Failed { status, message } ==> {
            &&& status == Some(-19i32) ==> answer.shown() == "Not available"@
            &&& status != Some(-19i32) ==> answer.shown() == message@
        },
{
}

/// Where the number of an entry ends in its line is where the first comma
/// stands after the label.
proof fn lemma_number_in_line(
    label: Seq<char>,
    j: nat,
    rest1: Seq<char>,
    k: nat,
    rest2: Seq<char>,
)
    requires
        label + decimal(j) + seq![','] + rest1 == label + decimal(k) + seq![','] + rest2,
    ensures
        j == k,
{
    let a = label + decimal(j) + seq![','] + rest1;
    let b = label + decimal(k) + seq![','] + rest2;
    let n = label.len() as int;
    crate::text::lemma_decimal_digits(j);
    crate::text::lemma_decimal_digits(k);
    assert forall|i: int| 0 <= i < decimal(j).len() implies decimal(j)[i] == #[trigger] a[n + i]
        && a[n + i] != ',' by {
        assert(crate::text::is_digit(decimal(j)[i]));
    }
    assert forall|i: int| 0 <= i < decimal(k).len() implies decimal(k)[i] == #[trigger] b[n + i]
        && b[n + i] != ',' by {
        assert(crate::text::is_digit(decimal(k)[i]));
    }
    assert(a[n + decimal(j).len()] == ',');
    assert(b[n + decimal(k).len()] == ',');
    if decimal(j).len() < decimal(k).len() {
        let i = decimal(j).len() as int;
        assert(b[n + i] != ',');
    }
    if decimal(k).len() < decimal(j).len() {
        let i = decimal(k).len() as int;
        assert(a[n + i] != ',');
    }
    assert(decimal(j).len() == decimal(k).len());
    assert forall|i: int| 0 <= i < decimal(j).len() implies decimal(j)[i] == decimal(k)[i] by {
        assert(a[n + i] == decimal(j)[i]);
        assert(b[n + i] == decimal(k)[i]);
    }
    assert(decimal(j) =~= decimal(k));
}

/// The line of a device shows its position, by which it is selected: it starts
/// with a label, digits that read back as the position, and a comma, and goes
/// on with the vendor and the name. Devices at different positions have
/// different lines, whatever they are called.
pub proof fn law_device_line(j: usize, device: DeviceEntry)
    ensures
        device_line(j as nat, device) == "OCL: device "@ + decimal(j as nat) + ", "@
            + device.vendor.shown() + " - "@ + device.name.shown(),
        crate::text::number(decimal(j as nat)) == Some(j),
        forall|k: nat, other: DeviceEntry|
            k != j ==> #[trigger] device_line(k, other) != device_line(j as nat, device),
{
    crate::text::law_decimal_round_trip(j);
    reveal_strlit(", ");
    assert forall|k: nat, other: DeviceEntry| k != j implies #[trigger] device_line(k, other)
        != device_line(j as nat, device) by {
        let rest1 = seq![' '] + device.vendor.shown() + " - "@ + device.name.shown();
        let rest2 = seq![' '] + other.vendor.shown() + " - "@ + other.name.shown();
        let label = "OCL: device "@;
        assert(device_line(j as nat, device) =~= label + decimal(j as nat) + seq![','] + rest1);
        assert(device_line(k, other) =~= label + decimal(k) + seq![','] + rest2);
        if device_line(k, other) == device_line(j as nat, device) {
            lemma_number_in_line(label, j as nat, rest1, k, rest2);
        }
    }
}

/// The line of a platform shows its position, by which it is selected: it
/// starts with a label, digits that read back as the position, and a comma, and
/// goes on with the name and the version. Platforms at different positions have
/// different lines, whatever they are called.
pub proof fn law_platform_line(i: usize, platform: PlatformEntry)
    ensures
        platform_line(i as nat, platform) == "OCL: platform "@ + decimal(i as nat) + ", "@
            + platform.name.shown() + " - "@ + platform.version.shown(),
        crate::text::number(decimal(i as nat)) == Some(i),
        forall|k: nat, other: PlatformEntry|
            k != i ==> #[trigger] platform_line(k, other) != platform_line(i as nat, platform),
{
    crate::text::law_decimal_round_trip(i);
    reveal_strlit(", ");
    assert forall|k: nat, other: PlatformEntry| k != i implies #[trigger] platform_line(k, other)
        != platform_line(i as nat, platform) by {
        let rest1 = seq![' '] + platform.name.shown() + " - "@ + platform.version.shown();
        let rest2 = seq![' '] + other.name.shown() + " - "@ + other.version.shown();
        let label = "OCL: platform "@;
        assert(platform_line(i as nat, platform) =~= label + decimal(i as nat) + seq![','] + rest1);
        assert(platform_line(k, other) =~= label + decimal(k) + seq![','] + rest2);
        if platform_line(k, other) == platform_line(i as nat, platform) {
            lemma_number_in_line(label, i as nat, rest1, k, rest2);
        }
    }
}

/// No platforms, no lines. One more platform keeps the lines that there are and
/// adds its own line, with its position in the list, and then one for each of
/// its devices, with their positions in theirs.
pub proof fn law_listing_grows(platforms: Seq<PlatformEntry>, next: PlatformEntry)
    ensures
        listing(Seq::empty()).len() == 0,
        next.devices is None ==> next.device_list().len() == 0,
        next.devices matches Some(devices) ==> next.device_list() == devices@,
        ({
            let old_lines = listing(platforms);
            let lines = listing(platforms.push(next));
            let devices = next.device_list();
            let n = old_lines.len() as int;
            &&& lines.len() == n + 1 + devices.len()
            &&& lines.take(n) == old_lines
            &&& lines[n] == "OCL: platform "@ + decimal(platforms.len()) + ", "@
                + next.name.shown() + " - "@ + next.version.shown()
            &&& forall|j: int|
                0 <= j < devices.len() ==> #[trigger] lines[n + 1 + j] == "OCL: device "@ + decimal(
                    j as nat,
                ) + ", "@ + devices[j].vendor.shown() + " - "@ + devices[j].name.shown()
        }),
{
    let old_lines = listing(platforms);
    let lines = listing(platforms.push(next));
    assert(platforms.push(next).drop_last() =~= platforms);
    assert(lines.take(old_lines.len() as int) =~= old_lines);
}

/// The texts are those of the lines, one for one.
pub proof fn law_texts(lines: Seq<String>)
    ensures
        texts(lines).len() == lines.len(),
        forall|i: int| 0 <= i < lines.len() ==> #[trigger] texts(lines)[i] == lines[i]@,
{
}

} // verus!
