//! Block device abstraction layer.
//!
//! A *block device* presents storage as a flat array of fixed-size logical
//! blocks addressed by LBA (logical block address). [`BlockDevice`] is the
//! contract that every storage backend meets; [`BlockRegistry`] lets higher
//! layers address devices by index or by name.

use crate::bytes::{bytes_eq, str_eq, zeroed};
use vstd::prelude::*;

verus! {

/// Errors a block device operation can return.
#[derive(Debug, Clone, Copy, PartialEq, Eq)]
pub enum BlockError {
    /// The requested LBA range falls outside the device.
    OutOfRange,
    /// The buffer length does not match the requested block count.
    BadBuffer,
    /// The underlying driver reported a hardware or transport error.
    DeviceError(&'static str),
    /// The operation is not supported by this device.
    Unsupported,
}

/// The bytes of `n` blocks of `unit` bytes from `lba` on, back to back.
pub open spec fn span(blocks: Seq<Seq<u8>>, unit: nat, lba: int, n: int) -> Seq<u8> {
    Seq::new((n * unit) as nat, |k: int| blocks[lba + k / (unit as int)][k % (unit as int)])
}

/// The blocks after `data` was stored in `n` blocks from `lba` on.
pub open spec fn overwrite(
    blocks: Seq<Seq<u8>>,
    unit: nat,
    lba: int,
    n: int,
    data: Seq<u8>,
) -> Seq<Seq<u8>> {
    Seq::new(
        blocks.len(),
        |i: int|
            if lba <= i < lba + n {
                data.subrange((i - lba) * unit, (i - lba) * unit + unit)
            } else {
                blocks[i]
            },
    )
}

/// Why a transfer of `count` blocks at `lba` with a buffer of `len` bytes is
/// refused by a device of `total` blocks of `unit` bytes; `None` if it is not.
pub open spec fn transfer_error(total: nat, unit: nat, lba: u64, count: u32, len: nat) -> Option<
    BlockError,
> {
    if count == 0 || len != count * unit {
        Some(BlockError::BadBuffer)
    } else if lba + count > total {
        Some(BlockError::OutOfRange)
    } else {
        None
    }
}

/// Same number of blocks, and every block outside `[lba, lba + n)` unchanged.
pub open spec fn outside_unchanged(
    before: Seq<Seq<u8>>,
    after: Seq<Seq<u8>>,
    unit: nat,
    lba: int,
    n: int,
) -> bool {
    &&& after.len() == before.len()
    &&& forall|i: int|
        0 <= i < before.len() && !(lba <= i < lba + n) ==> #[trigger] after[i] == before[i]
    &&& forall|i: int| lba <= i < lba + n && 0 <= i < before.len() ==> (#[trigger] after[i]).len() == unit
}

/// All blocks have the same, nonzero size.
pub open spec fn geometry_ok(unit: nat, blocks: Seq<Seq<u8>>) -> bool {
    &&& 0 < unit <= usize::MAX
    &&& blocks.len() <= u64::MAX
    &&& forall|i: int| 0 <= i < blocks.len() ==> (#[trigger] blocks[i]).len() == unit
}

/// The contents of a device, block by block.
pub type DeviceBlocks = Seq<Seq<u8>>;

/// The number of bytes in a block of a device.
pub type DeviceUnit = nat;

/// The name of a device.
pub type DeviceLabel = Seq<char>;

/// What was handed to a device to be stored: where, and the bytes, in order.
pub type DeviceRecord = Seq<(u64, Seq<u8>)>;

/// What came back from a read.
pub type DeviceAnswer = Result<Seq<u8>, BlockError>;

/// A fixed-block-size storage device addressed by LBA.
pub trait BlockDevice: Sized {
    /// The contents of the device, block by block.
    spec fn blocks(&self) -> DeviceBlocks;

    /// The number of bytes in a block.
    spec fn unit(&self) -> DeviceUnit;

    /// The name of the device.
    spec fn label(&self) -> DeviceLabel;

    /// The device never reports a hardware error.
    spec fn reliable(&self) -> bool;

    /// Everything that was handed to the device to be stored so far.
    spec fn handed(&self) -> DeviceRecord;

    /// The device, as it stands, answers a read of `count` blocks at `lba` with
    /// `r`. Only a read shows what it answers.
    spec fn answers(&self, lba: u64, count: u32, r: DeviceAnswer) -> bool;

    /// Stable, human-readable device name (e.g. `"sata0"`).
    fn name(&self) -> (r: &str)
        ensures
            r@ == self.label(),
    ;

    /// Size of one logical block in bytes (typically 512).
    fn block_size(&self) -> (r: usize)
        ensures
            r == self.unit(),
    ;

    /// Total number of logical blocks on the device.
    fn block_count(&self) -> (r: u64)
        ensures
            r == self.blocks().len(),
    ;

    /// Reads `count` blocks starting at `lba` into `buf`, whose length must be
    /// `count` times the block size.
    fn read_blocks(&self, lba: u64, count: u32, buf: &mut [u8]) -> (r: Result<(), BlockError>)
        requires
            geometry_ok(self.unit(), self.blocks()),
        ensures
            final(buf)@.len() == old(buf)@.len(),
            self.answers(lba, count, answer(r, final(buf)@)),
            match (
                r,
                transfer_error(self.blocks().len(), self.unit(), lba, count, old(buf)@.len()),
            ) {
                (Ok(_), None) => final(buf)@ == span(
                    self.blocks(),
                    self.unit(),
                    lba as int,
                    count as int,
                ),
                (Ok(_), Some(_)) => false,
                (Err(e), None) => e is DeviceError && !self.reliable(),
                (Err(e), Some(why)) => e == why,
            },
    ;

    /// Writes `count` blocks starting at `lba` from `buf`, whose length must be
    /// `count` times the block size.
    fn write_blocks(&mut self, lba: u64, count: u32, buf: &[u8]) -> (r: Result<(), BlockError>)
        requires
            geometry_ok(old(self).unit(), old(self).blocks()),
        ensures
            final(self).unit() == old(self).unit(),
            final(self).label() == old(self).label(),
            final(self).reliable() == old(self).reliable(),
            final(self).handed() == old(self).handed().push((lba, buf@)),
            match (
                r,
                transfer_error(
                    old(self).blocks().len(),
                    old(self).unit(),
                    lba,
                    count,
                    buf@.len(),
                ),
            ) {
                (Ok(_), None) => final(self).blocks() == overwrite(
                    old(self).blocks(),
                    old(self).unit(),
                    lba as int,
                    count as int,
                    buf@,
                ),
                (Ok(_), Some(_)) => false,
                (Err(e), None) => e is DeviceError && !old(self).reliable() && outside_unchanged(
                    old(self).blocks(),
                    final(self).blocks(),
                    old(self).unit(),
                    lba as int,
                    count as int,
                ),
                (Err(e), Some(why)) => e == why && final(self).blocks() == old(self).blocks(),
            },
    ;

    /// Total capacity in bytes.
    fn capacity_bytes(&self) -> (r: u64)
        requires
            self.unit() * self.blocks().len() <= u64::MAX,
        ensures
            r == self.unit() * self.blocks().len(),
    {
        let unit: u64 = self.block_size() as u64;
        let count: u64 = self.block_count();
        assert(unit * count == self.unit() * self.blocks().len());
        unit * count
    }
}

/// What a read gave: the bytes in the buffer, or the error.
pub open spec fn answer(r: Result<(), BlockError>, buf: Seq<u8>) -> DeviceAnswer {
    match r {
        Ok(_) => Ok(buf),
        Err(e) => Err(e),
    }
}

/// What a read into a fresh buffer gave.
pub open spec fn answer_of(r: Result<Vec<u8>, BlockError>) -> DeviceAnswer {
    match r {
        Ok(v) => Ok(v@),
        Err(e) => Err(e),
    }
}

/// A device whose blocks all have the advertised, nonzero size.
pub open spec fn device_ok<D: BlockDevice>(d: &D) -> bool {
    geometry_ok(d.unit(), d.blocks())
}

/// One block read on its own is the block.
pub proof fn lemma_span_one(blocks: Seq<Seq<u8>>, unit: nat, lba: int)
    requires
        0 <= lba < blocks.len(),
        blocks[lba].len() == unit,
        unit > 0,
    ensures
        span(blocks, unit, lba, 1) == blocks[lba],
{
    assert forall|k: int| 0 <= k < unit implies #[trigger] (k / (unit as int)) == 0 && k % (
    unit as int) == k by {
        vstd::arithmetic::div_mod::lemma_small_mod(k as nat, unit);
        vstd::arithmetic::div_mod::lemma_basic_div(k, unit as int);
    }
    assert(span(blocks, unit, lba, 1) =~= blocks[lba]);
}

/// Storing one block replaces that block.
pub proof fn lemma_overwrite_one(blocks: Seq<Seq<u8>>, unit: nat, lba: int, data: Seq<u8>)
    requires
        0 <= lba < blocks.len(),
        data.len() == unit,
    ensures
        overwrite(blocks, unit, lba, 1, data) == blocks.update(lba, data),
{
    assert(data.subrange(0, unit as int) =~= data);
    assert(overwrite(blocks, unit, lba, 1, data) =~= blocks.update(lba, data));
}

/// The registered block devices, in order of registration.
pub struct BlockRegistry<D> {
    devices: Vec<D>,
}

impl<D> View for BlockRegistry<D> {
    type V = Seq<D>;

    closed spec fn view(&self) -> Seq<D> {
        self.devices@
    }
}

impl<D: BlockDevice> BlockRegistry<D> {
    /// An empty registry.
    pub fn new() -> (r: BlockRegistry<D>)
        ensures
            r@ == Seq::<D>::empty(),
    {
        BlockRegistry { devices: Vec::new() }
    }
}

/// Registers a block device and returns its index.
pub fn register<D: BlockDevice>(devs: &mut BlockRegistry<D>, dev: D) -> (idx: usize)
    ensures
        idx == old(devs)@.len(),
        final(devs)@ == old(devs)@.push(dev),
{
    devs.devices.push(dev);
    devs.devices.len() - 1
}

/// Number of registered block devices.
pub fn device_count<D: BlockDevice>(devs: &BlockRegistry<D>) -> (n: usize)
    ensures
        n == devs@.len(),
{
    devs.devices.len()
}

/// Summary information about a registered device.
pub struct BlockDeviceInfo {
    pub index: usize,
    pub name: String,
    pub block_size: usize,
    pub block_count: u64,
}

/// What the summary of device number `i` says.
pub open spec fn describes<D: BlockDevice>(info: BlockDeviceInfo, i: int, d: D) -> bool {
    &&& info.index == i
    &&& info.name@ == d.label()
    &&& info.block_size == d.unit()
    &&& info.block_count == d.blocks().len()
}

/// A snapshot of all registered devices.
pub fn list<D: BlockDevice>(devs: &BlockRegistry<D>) -> (r: Vec<BlockDeviceInfo>)
    ensures
        r@.len() == devs@.len(),
        forall|i: int| 0 <= i < devs@.len() ==> describes(#[trigger] r@[i], i, devs@[i]),
{
    let mut r: Vec<BlockDeviceInfo> = Vec::new();
    let mut i: usize = 0;
    while i < devs.devices.len()
        invariant
            i <= devs@.len(),
            r@.len() == i,
            forall|j: int| 0 <= j < i ==> describes(#[trigger] r@[j], j, devs@[j]),
        decreases devs@.len() - i,
    {
        let d = &devs.devices[i];
        let info = BlockDeviceInfo {
            index: i,
            name: d.name().to_owned(),
            block_size: d.block_size(),
            block_count: d.block_count(),
        };
        r.push(info);
        i += 1;
    }
    r
}

/// Reads `count` blocks from the device at index `idx` into a fresh buffer.
pub fn read<D: BlockDevice>(devs: &BlockRegistry<D>, idx: usize, lba: u64, count: u32) -> (r:
    Result<Vec<u8>, BlockError>)
    requires
        idx < devs@.len() ==> device_ok(&devs@[idx as int]) && count * devs@[idx as int].unit()
            <= usize::MAX,
    ensures
        idx >= devs@.len() ==> r == Err::<Vec<u8>, BlockError>(BlockError::OutOfRange),
        idx < devs@.len() ==> {
            let d = devs@[idx as int];
            &&& d.answers(lba, count, answer_of(r))
            &&& match (
                r,
                transfer_error(
                    d.blocks().len(),
                    d.unit(),
                    lba,
                    count,
                    (count * d.unit()) as nat,
                ),
            ) {
                (Ok(v), None) => v@ == span(d.blocks(), d.unit(), lba as int, count as int),
                (Ok(_), Some(_)) => false,
                (Err(e), None) => e is DeviceError && !d.reliable(),
                (Err(e), Some(why)) => e == why,
            }
        },
{
    if idx >= devs.devices.len() {
        return Err(BlockError::OutOfRange);
    }
    let dev = &devs.devices[idx];
    assert(dev == devs@[idx as int]);
    let bs: usize = dev.block_size();
    assert(count as usize * bs == count * dev.unit());
    let mut buf = zeroed(count as usize * bs);
    match dev.read_blocks(lba, count, buf.as_mut_slice()) {
        Ok(_) => Ok(buf),
        Err(e) => Err(e),
    }
}

/// Why storing `len` bytes at `lba` is refused by the device; `None` if it is
/// not.
pub open spec fn write_error<D: BlockDevice>(d: D, lba: u64, len: nat) -> Option<BlockError> {
    if len == 0 || len % d.unit() != 0 {
        Some(BlockError::BadBuffer)
    } else {
        transfer_error(d.blocks().len(), d.unit(), lba, (len / d.unit()) as u32, len)
    }
}

/// All devices but number `idx` are the same, and that one keeps its name, its
/// size and its reliability.
pub open spec fn only_device_changed<D: BlockDevice>(
    before: Seq<D>,
    after: Seq<D>,
    idx: int,
) -> bool {
    &&& after.len() == before.len()
    &&& forall|j: int| 0 <= j < before.len() && j != idx ==> #[trigger] after[j] == before[j]
    &&& 0 <= idx < before.len() ==> {
        &&& after[idx].unit() == before[idx].unit()
        &&& after[idx].label() == before[idx].label()
        &&& after[idx].reliable() == before[idx].reliable()
        &&& after[idx].blocks().len() == before[idx].blocks().len()
    }
}

/// Writes whole blocks to the device at index `idx`.
pub fn write<D: BlockDevice>(devs: &mut BlockRegistry<D>, idx: usize, lba: u64, buf: &[u8]) -> (r:
    Result<(), BlockError>)
    requires
        idx < old(devs)@.len() ==> device_ok(&old(devs)@[idx as int]),
    ensures
        idx >= old(devs)@.len() ==> r == Err::<(), BlockError>(BlockError::OutOfRange)
            && final(devs)@ == old(devs)@,
        idx < old(devs)@.len() ==> {
            let d = old(devs)@[idx as int];
            &&& only_device_changed(old(devs)@, final(devs)@, idx as int)
            &&& device_ok(&final(devs)@[idx as int])
            &&& if buf@.len() == 0 || buf@.len() % d.unit() != 0 {
                final(devs)@ == old(devs)@
            } else {
                final(devs)@[idx as int].handed() == d.handed().push((lba, buf@))
            }
            &&& match (r, write_error(d, lba, buf@.len())) {
                (Ok(_), None) => final(devs)@[idx as int].blocks() == overwrite(
                    d.blocks(),
                    d.unit(),
                    lba as int,
                    buf@.len() as int / d.unit() as int,
                    buf@,
                ),
                (Ok(_), Some(_)) => false,
                (Err(e), None) => e is DeviceError && !d.reliable() && outside_unchanged(
                    d.blocks(),
                    final(devs)@[idx as int].blocks(),
                    d.unit(),
                    lba as int,
                    buf@.len() as int / d.unit() as int,
                ),
                (Err(e), Some(why)) => e == why && final(devs)@[idx as int].blocks() == d.blocks(),
            }
        },
{
    if idx >= devs.devices.len() {
        return Err(BlockError::OutOfRange);
    }
    let ghost d = devs@[idx as int];
    let bs: usize = devs.devices[idx].block_size();
    let len: usize = buf.len();
    if len == 0 || len % bs != 0 {
        return Err(BlockError::BadBuffer);
    }
    let count: u32 = (len / bs) as u32;
    let r = devs.devices[idx].write_blocks(lba, count, buf);
    proof {
        if transfer_error(d.blocks().len(), d.unit(), lba, count, len as nat) is None {
            vstd::arithmetic::div_mod::lemma_div_multiples_vanish(count as int, bs as int);
            assert(count * bs == bs * count) by (nonlinear_arith);
            lemma_overwrite_shape(d.blocks(), d.unit(), lba as int, count as int, buf@);
        }
    }
    r
}

/// Storing whole blocks keeps every block the same size.
proof fn lemma_overwrite_shape(blocks: Seq<Seq<u8>>, unit: nat, lba: int, n: int, data: Seq<u8>)
    requires
        0 <= n,
        data.len() == n * unit,
        forall|i: int| 0 <= i < blocks.len() ==> (#[trigger] blocks[i]).len() == unit,
    ensures
        forall|i: int|
            0 <= i < blocks.len() ==> (#[trigger] overwrite(blocks, unit, lba, n, data)[i]).len()
                == unit,
{
    let after = overwrite(blocks, unit, lba, n, data);
    assert forall|i: int| 0 <= i < blocks.len() implies (#[trigger] after[i]).len() == unit by {
        if lba <= i < lba + n {
            let k = i - lba;
            assert(0 <= k * unit && k * unit + unit <= n * unit) by (nonlinear_arith)
                requires
                    0 <= k < n,
                    0 <= unit,
            ;
        }
    }
}

/// Looks up a device index by name (e.g. `"sata0"`): the first device that
/// bears it.
pub fn find_by_name<D: BlockDevice>(devs: &BlockRegistry<D>, name: &str) -> (r: Option<usize>)
    ensures
        match r {
            Some(i) => i < devs@.len() && devs@[i as int].label() == name@ && forall|j: int|
                0 <= j < i ==> (#[trigger] devs@[j]).label() != name@,
            None => forall|j: int| 0 <= j < devs@.len() ==> (#[trigger] devs@[j]).label() != name@,
        },
{
    let mut i: usize = 0;
    while i < devs.devices.len()
        invariant
            i <= devs@.len(),
            forall|j: int| 0 <= j < i ==> (#[trigger] devs@[j]).label() != name@,
        decreases devs@.len() - i,
    {
        if str_eq(devs.devices[i].name(), name) {
            return Some(i);
        }
        i += 1;
    }
    None
}

/// What reading the single block `lba` of a device gives: its contents, or an
/// error exactly when it lies outside the device or the hardware failed.
pub open spec fn block_read<D: BlockDevice>(d: D, lba: int, r: Result<Seq<u8>, BlockError>) -> bool {
    match r {
        Ok(v) => 0 <= lba < d.blocks().len() && v == d.blocks()[lba],
        Err(e) => if lba < d.blocks().len() {
            e is DeviceError && !d.reliable()
        } else {
            e == BlockError::OutOfRange
        },
    }
}

/// Reads the single block `lba` of the device at index `idx`.
pub fn read_one<D: BlockDevice>(devs: &BlockRegistry<D>, idx: usize, lba: u64) -> (r: Result<
    Vec<u8>,
    BlockError,
>)
    requires
        idx < devs@.len(),
        device_ok(&devs@[idx as int]),
    ensures
        block_read(devs@[idx as int], lba as int, answer_of(r)),
        devs@[idx as int].answers(lba, 1, answer_of(r)),
{
    let r = read(devs, idx, lba, 1);
    proof {
        let d = devs@[idx as int];
        if lba < d.blocks().len() {
            lemma_span_one(d.blocks(), d.unit(), lba as int);
        }
    }
    r
}

/// Writes the single block `lba` of the device at index `idx`.
pub fn write_one<D: BlockDevice>(
    devs: &mut BlockRegistry<D>,
    idx: usize,
    lba: u64,
    buf: &[u8],
) -> (r: Result<(), BlockError>)
    requires
        idx < old(devs)@.len(),
        device_ok(&old(devs)@[idx as int]),
        buf@.len() == old(devs)@[idx as int].unit(),
    ensures
        only_device_changed(old(devs)@, final(devs)@, idx as int),
        device_ok(&final(devs)@[idx as int]),
        final(devs)@[idx as int].handed() == old(devs)@[idx as int].handed().push((lba, buf@)),
        ({
            let d = old(devs)@[idx as int];
            let after = final(devs)@[idx as int].blocks();
            match r {
                Ok(_) => lba < d.blocks().len() && after == d.blocks().update(lba as int, buf@),
                Err(e) => if lba < d.blocks().len() {
                    e is DeviceError && !d.reliable() && outside_unchanged(
                        d.blocks(),
                        after,
                        d.unit(),
                        lba as int,
                        1,
                    )
                } else {
                    e == BlockError::OutOfRange && after == d.blocks()
                },
            }
        }),
{
    let ghost d = devs@[idx as int];
    proof {
        vstd::arithmetic::div_mod::lemma_div_by_self(d.unit() as int);
        vstd::arithmetic::div_mod::lemma_mod_self_0(d.unit() as int);
    }
    let r = write(devs, idx, lba, buf);
    proof {
        if lba < d.blocks().len() {
            lemma_overwrite_one(d.blocks(), d.unit(), lba as int, buf@);
        }
    }
    r
}

/// The recognizable byte that the self-test stores at position `i`.
pub open spec fn pattern_byte(i: int, lba: u64) -> u8 {
    ((i + lba) % 256) as u8
}

/// The block that the self-test stores.
pub open spec fn pattern_of(size: nat, lba: u64) -> Seq<u8> {
    Seq::new(size, |i: int| pattern_byte(i, lba))
}

/// The block of `size` bytes that the self-test stores at `lba`.
pub fn pattern_block(size: usize, lba: u64) -> (r: Vec<u8>)
    ensures
        r@ == pattern_of(size as nat, lba),
{
    let mut pattern: Vec<u8> = Vec::new();
    let mut i: usize = 0;
    while i < size
        invariant
            i <= size,
            pattern@.len() == i,
            forall|j: int| 0 <= j < i ==> #[trigger] pattern@[j] == pattern_byte(j, lba),
        decreases size - i,
    {
        pattern.push(((i as u64 % 256 + lba % 256) % 256) as u8);
        i += 1;
    }
    assert(pattern@ =~= pattern_of(size as nat, lba));
    pattern
}

/// What a self-test says of a device that gave `readback` for the pattern and
/// ended the restoring write with `restored`.
pub open spec fn verdict_of(
    pattern: Seq<u8>,
    readback: Seq<u8>,
    restored: Result<(), BlockError>,
) -> Result<(), BlockError> {
    if readback == pattern {
        restored
    } else {
        Err(BlockError::DeviceError("selftest readback mismatch"))
    }
}

/// Judges what came back: the readback has to be the pattern, and the block has
/// to be restored.
pub fn selftest_verdict(
    pattern: &[u8],
    readback: &[u8],
    restored: Result<(), BlockError>,
) -> (r: Result<(), BlockError>)
    ensures
        r == verdict_of(pattern@, readback@, restored),
{
    if bytes_eq(readback, pattern) {
        restored
    } else {
        Err(BlockError::DeviceError("selftest readback mismatch"))
    }
}

/// `m` is device `d` after `data` was handed to it for block `lba`, and stored.
pub open spec fn stored<D: BlockDevice>(d: D, m: D, lba: u64, data: Seq<u8>) -> bool {
    &&& m.handed() == d.handed().push((lba, data))
    &&& m.blocks() == d.blocks().update(lba as int, data)
}

/// `m` is device `d` after `data` was handed to it for block `lba`, and it failed
/// with `e`.
pub open spec fn not_stored<D: BlockDevice>(
    d: D,
    m: D,
    lba: u64,
    data: Seq<u8>,
    e: BlockError,
) -> bool {
    &&& m.handed() == d.handed().push((lba, data))
    &&& e is DeviceError && !d.reliable()
    &&& outside_unchanged(d.blocks(), m.blocks(), d.unit(), lba as int, 1)
}

/// The test went through: device `m` has the pattern stored, answered with
/// `readback`, was then handed what block `lba` had held, and `r` is the verdict.
pub open spec fn tested_through<D: BlockDevice>(
    d: D,
    m: D,
    after: D,
    lba: u64,
    readback: Seq<u8>,
    r: Result<(), BlockError>,
) -> bool {
    let pattern = pattern_of(d.unit(), lba);
    let held = d.blocks()[lba as int];
    &&& d.answers(lba, 1, Ok(held))
    &&& stored(d, m, lba, pattern)
    &&& m.answers(lba, 1, Ok(readback))
    &&& {
        ||| stored(m, after, lba, held) && r == verdict_of(pattern, readback, Ok(()))
        ||| exists|e: BlockError|
            #![trigger not_stored(m, after, lba, held, e)]
            not_stored(m, after, lba, held, e) && r == verdict_of(pattern, readback, Err(e))
    }
}

/// The test of block `lba` ended early with error `e`: the block could not be read,
/// the pattern could not be stored, or it could not be read back.
pub open spec fn tested_in_part<D: BlockDevice>(d: D, after: D, lba: u64, e: BlockError) -> bool {
    let pattern = pattern_of(d.unit(), lba);
    ||| d.answers(lba, 1, Err(e)) && after == d
    ||| d.answers(lba, 1, Ok(d.blocks()[lba as int])) && not_stored(d, after, lba, pattern, e)
    ||| {
        &&& d.answers(lba, 1, Ok(d.blocks()[lba as int]))
        &&& stored(d, after, lba, pattern)
        &&& after.answers(lba, 1, Err(e))
    }
}

/// Non-destructive read/write round trip against block `lba` of device `idx`:
/// saves the block, writes a pattern, reads it back, compares, and restores the
/// block. If it succeeds, the pattern was stored there and was read back, and the
/// device holds what it held. On a device that does not fail, it succeeds.
pub fn selftest<D: BlockDevice>(devs: &mut BlockRegistry<D>, idx: usize, lba: u64) -> (r: Result<
    (),
    BlockError,
>)
    requires
        idx < old(devs)@.len() ==> device_ok(&old(devs)@[idx as int]),
    ensures
        idx >= old(devs)@.len() ==> r == Err::<(), BlockError>(BlockError::OutOfRange)
            && final(devs)@ == old(devs)@,
        idx < old(devs)@.len() ==> {
            let d = old(devs)@[idx as int];
            let after = final(devs)@[idx as int];
            let pattern = pattern_of(d.unit(), lba);
            &&& only_device_changed(old(devs)@, final(devs)@, idx as int)
            &&& if lba >= d.blocks().len() {
                r == Err::<(), BlockError>(BlockError::OutOfRange) && final(devs)@ == old(devs)@
            } else {
                ||| r matches Err(e) && tested_in_part(d, after, lba, e)
                ||| exists|m: D, readback: Seq<u8>|
                    #[trigger] tested_through(d, m, after, lba, readback, r)
            }
            &&& match r {
                Ok(_) => {
                    &&& after.blocks() == d.blocks()
                    &&& after.handed() == d.handed().push((lba, pattern)).push(
                        (lba, d.blocks()[lba as int]),
                    )
                    &&& exists|m: D|
                        {
                            &&& m.handed() == d.handed().push((lba, pattern))
                            &&& #[trigger] m.answers(lba, 1, Ok(pattern))
                        }
                },
                Err(e) => lba < d.blocks().len() ==> {
                    &&& e is DeviceError && !d.reliable()
                    &&& outside_unchanged(d.blocks(), after.blocks(), d.unit(), lba as int, 1)
                },
            }
        },
{
    if idx >= devs.devices.len() {
        return Err(BlockError::OutOfRange);
    }
    let ghost d = devs@[idx as int];
    let bs: usize = devs.devices[idx].block_size();
    let held = match read_one(devs, idx, lba) {
        Ok(v) => v,
        Err(e) => return Err(e),
    };
    let pattern = pattern_block(bs, lba);
    match write_one(devs, idx, lba, pattern.as_slice()) {
        Ok(_) => {},
        Err(e) => {
            assert(not_stored(d, devs@[idx as int], lba, pattern@, e));
            return Err(e);
        },
    }
    let ghost m = devs@[idx as int];
    assert(stored(d, m, lba, pattern@));
    let readback = match read_one(devs, idx, lba) {
        Ok(v) => v,
        Err(e) => return Err(e),
    };
    let restored = write_one(devs, idx, lba, held.as_slice());
    let r = selftest_verdict(pattern.as_slice(), readback.as_slice(), restored);
    proof {
        let after = devs@[idx as int];
        match restored {
            Ok(u) => {
                assert(u == ());
                assert(stored(m, after, lba, held@));
                assert(after.blocks() =~= d.blocks());
            },
            Err(e) => assert(not_stored(m, after, lba, held@, e)),
        }
        assert(tested_through(d, m, after, lba, readback@, r));
    }
    r
}

/// An AHCI SATA port described as a block device.
pub struct AhciBlockDevice {
    pub name: String,
    pub port: u8,
    pub block_size: usize,
    pub block_count: u64,
}

/// One hardware command of a transfer: `count` sectors at `lba`, for the bytes
/// `[offset, offset + len)` of the caller's buffer.
#[derive(Debug, Clone, Copy, PartialEq, Eq, Structural)]
pub struct SectorChunk {
    pub lba: u64,
    pub count: u16,
    pub offset: usize,
    pub len: usize,
}

/// The largest number of sectors in one hardware command.
pub const MAX_CHUNK: u32 = 65535;

/// The number of sectors that the command after the first `done` carries.
pub open spec fn chunk_len(count: u32, done: int) -> int {
    if count - done < MAX_CHUNK {
        count - done
    } else {
        MAX_CHUNK as int
    }
}

/// The command that follows once `done` of `count` sectors are transferred.
pub open spec fn chunk_at(unit: nat, lba: u64, count: u32, done: int) -> SectorChunk {
    SectorChunk {
        lba: (lba + done) as u64,
        count: chunk_len(count, done) as u16,
        offset: (done * unit) as usize,
        len: (chunk_len(count, done) * unit) as usize,
    }
}

/// The commands that remain once `done` of `count` sectors are transferred.
pub open spec fn chunks_from(unit: nat, lba: u64, count: u32, done: int) -> Seq<SectorChunk>
    decreases count - done,
{
    if 0 <= done < count {
        seq![chunk_at(unit, lba, count, done)] + chunks_from(
            unit,
            lba,
            count,
            done + chunk_len(count, done),
        )
    } else {
        Seq::empty()
    }
}

impl AhciBlockDevice {
    /// Checks a transfer request against the size of the device.
    pub fn validate(&self, lba: u64, count: u32, buf_len: usize) -> (r: Result<(), BlockError>)
        requires
            count * self.block_size <= usize::MAX,
        ensures
            match transfer_error(
                self.block_count as nat,
                self.block_size as nat,
                lba,
                count,
                buf_len as nat,
            ) {
                None => r is Ok,
                Some(why) => r == Err::<(), BlockError>(why),
            },
    {
        if count == 0 {
            return Err(BlockError::BadBuffer);
        }
        if buf_len != count as usize * self.block_size {
            return Err(BlockError::BadBuffer);
        }
        match lba.checked_add(count as u64) {
            None => Err(BlockError::OutOfRange),
            Some(end) => if end > self.block_count {
                Err(BlockError::OutOfRange)
            } else {
                Ok(())
            },
        }
    }

    /// Splits a transfer into hardware commands, whose sector count is a 16-bit
    /// field. Refuses what [`AhciBlockDevice::validate`] refuses.
    pub fn chunks(&self, lba: u64, count: u32, buf_len: usize) -> (r: Result<
        Vec<SectorChunk>,
        BlockError,
    >)
        requires
            count * self.block_size <= usize::MAX,
        ensures
            match transfer_error(
                self.block_count as nat,
                self.block_size as nat,
                lba,
                count,
                buf_len as nat,
            ) {
                None => r matches Ok(v) && v@ == chunks_from(
                    self.block_size as nat,
                    lba,
                    count,
                    0,
                ),
                Some(why) => r == Err::<Vec<SectorChunk>, BlockError>(why),
            },
    {
        match self.validate(lba, count, buf_len) {
            Ok(_) => {},
            Err(e) => return Err(e),
        }
        let mut v: Vec<SectorChunk> = Vec::new();
        let mut done: u32 = 0;
        let ghost unit = self.block_size as nat;
        while done < count
            invariant
                done <= count,
                unit == self.block_size,
                count * unit <= usize::MAX,
                lba + count <= u64::MAX,
                v@ + chunks_from(unit, lba, count, done as int) == chunks_from(unit, lba, count, 0),
            decreases count - done,
        {
            let chunk: u32 = if count - done < MAX_CHUNK {
                count - done
            } else {
                MAX_CHUNK
            };
            assert(done * unit <= count * unit && chunk * unit <= count * unit) by (nonlinear_arith)
                requires
                    done <= count,
                    chunk <= count,
            ;
            let c = SectorChunk {
                lba: lba + done as u64,
                count: chunk as u16,
                offset: done as usize * self.block_size,
                len: chunk as usize * self.block_size,
            };
            assert(c == chunk_at(unit, lba, count, done as int));
            let ghost before = v@;
            v.push(c);
            assert(v@ + chunks_from(unit, lba, count, done + chunk) =~= before + chunks_from(
                unit,
                lba,
                count,
                done as int,
            ));
            done += chunk;
        }
        assert(v@ =~= v@ + chunks_from(unit, lba, count, done as int));
        Ok(v)
    }
}

/// The commands of a transfer follow one another without gap or overlap: each
/// starts where the one before it ended, on the disk and in the buffer, and
/// together they carry exactly the sectors asked for.
pub proof fn law_chunks_tile_the_transfer(unit: nat, lba: u64, count: u32, done: int)
    requires
        0 <= done <= count,
        lba + count <= u64::MAX,
        count * unit <= usize::MAX,
    ensures
        ({
            let s = chunks_from(unit, lba, count, done);
            &&& (s.len() == 0 <==> done == count)
            &&& s.len() > 0 ==> s[0].lba == lba + done && s[0].offset == done * unit
            &&& s.len() > 0 ==> s.last().lba + s.last().count == lba + count && s.last().offset
                + s.last().len == count * unit
            &&& forall|i: int|
                0 <= i < s.len() ==> 0 < (#[trigger] s[i]).count && s[i].len == s[i].count * unit
            &&& forall|i: int|
                0 <= i < s.len() - 1 ==> (#[trigger] s[i]).lba + s[i].count == s[i + 1].lba
                    && s[i].offset + s[i].len == s[i + 1].offset
        }),
    decreases count - done,
{
    if done < count {
        let n = chunk_len(count, done);
        let rest = chunks_from(unit, lba, count, done + n);
        let s = chunks_from(unit, lba, count, done);
        let c = chunk_at(unit, lba, count, done);
        law_chunks_tile_the_transfer(unit, lba, count, done + n);
        assert(done * unit + n * unit == (done + n) * unit && 0 <= done * unit && 0 <= n * unit && (
        done + n) * unit <= count * unit) by (nonlinear_arith)
            requires
                0 <= done,
                0 < n,
                done + n <= count,
        ;
        assert(s == seq![c] + rest);
        assert forall|i: int| 0 <= i < s.len() implies 0 < (#[trigger] s[i]).count && s[i].len
            == s[i].count * unit by {
            if i > 0 {
                assert(s[i] == rest[i - 1]);
            }
        }
        assert forall|i: int| 0 <= i < s.len() - 1 implies (#[trigger] s[i]).lba + s[i].count == s[i
            + 1].lba && s[i].offset + s[i].len == s[i + 1].offset by {
            assert(s[i + 1] == rest[i]);
            if i > 0 {
                assert(s[i] == rest[i - 1]);
                assert(rest[i - 1].lba + rest[i - 1].count == rest[i - 1 + 1].lba);
            }
        }
        if rest.len() > 0 {
            assert(s.last() == rest.last());
        } else {
            assert(s.last() == c);
        }
    }
}

/// A block device held in memory.
pub struct RamDisk {
    name: String,
    sectors: Vec<Vec<u8>>,
    sector_size: usize,
    record: Ghost<Seq<(u64, Seq<u8>)>>,
}

impl RamDisk {
    /// A zero-filled disk of `count` blocks of `sector_size` bytes.
    pub fn new(name: &str, sector_size: usize, count: usize) -> (r: RamDisk)
        requires
            sector_size > 0,
        ensures
            device_ok(&r),
            r.reliable(),
            r.label() == name@,
            r.unit() == sector_size,
            r.handed() == Seq::<(u64, Seq<u8>)>::empty(),
            r.blocks() == Seq::new(
                count as nat,
                |i: int| crate::bytes::zeros(sector_size as nat),
            ),
    {
        let mut sectors: Vec<Vec<u8>> = Vec::new();
        let mut i: usize = 0;
        while i < count
            invariant
                i <= count,
                sectors@.len() == i,
                forall|j: int|
                    0 <= j < i ==> (#[trigger] sectors@[j])@ == crate::bytes::zeros(
                        sector_size as nat,
                    ),
            decreases count - i,
        {
            sectors.push(zeroed(sector_size));
            i += 1;
        }
        let r = RamDisk {
            name: name.to_owned(),
            sectors,
            sector_size,
            record: Ghost(Seq::empty()),
        };
        assert(r.blocks() =~= Seq::new(
            count as nat,
            |i: int| crate::bytes::zeros(sector_size as nat),
        ));
        r
    }
}

impl BlockDevice for RamDisk {
    closed spec fn blocks(&self) -> Seq<Seq<u8>> {
        Seq::new(self.sectors@.len(), |i: int| self.sectors@[i]@)
    }

    closed spec fn unit(&self) -> nat {
        self.sector_size as nat
    }

    closed spec fn label(&self) -> Seq<char> {
        self.name@
    }

    closed spec fn reliable(&self) -> bool {
        true
    }

    closed spec fn handed(&self) -> Seq<(u64, Seq<u8>)> {
        self.record@
    }

    closed spec fn answers(&self, lba: u64, count: u32, r: DeviceAnswer) -> bool {
        match r {
            Ok(v) => v == span(self.blocks(), self.unit(), lba as int, count as int),
            Err(e) => e == BlockError::BadBuffer || e == BlockError::OutOfRange,
        }
    }

    fn name(&self) -> (r: &str) {
        self.name.as_str()
    }

    fn block_size(&self) -> (r: usize) {
        self.sector_size
    }

    fn block_count(&self) -> (r: u64) {
        self.sectors.len() as u64
    }

    fn read_blocks(&self, lba: u64, count: u32, buf: &mut [u8]) -> (r: Result<(), BlockError>) {
        let n: usize = self.sectors.len();
        let total: u64 = n as u64;
        let unit: usize = self.sector_size;
        let len: usize = buf.len();
        let ghost want = span(self.blocks(), self.unit(), lba as int, count as int);
        proof {
            if count != 0 {
                vstd::arithmetic::div_mod::lemma_div_multiples_vanish(count as int, unit as int);
                assert(count * unit == unit * count) by (nonlinear_arith);
            }
        }
        if count == 0 || len % unit != 0 || len / unit != count as usize {
            proof {
                if len == count * unit && count != 0 {
                    vstd::arithmetic::div_mod::lemma_mod_multiples_basic(
                        count as int,
                        unit as int,
                    );
                }
            }
            return Err(BlockError::BadBuffer);
        }
        assert(len == count * unit) by {
            vstd::arithmetic::div_mod::lemma_fundamental_div_mod(len as int, unit as int);
            assert(count * unit == unit * count) by (nonlinear_arith);
        }
        if count as u64 > total || lba > total - count as u64 {
            return Err(BlockError::OutOfRange);
        }
        let mut k: usize = 0;
        while k < len
            invariant
                k <= len,
                len == buf@.len() == count * unit,
                unit == self.unit(),
                unit > 0,
                lba + count <= n == self.sectors@.len(),
                geometry_ok(self.unit(), self.blocks()),
                want == span(self.blocks(), self.unit(), lba as int, count as int),
                forall|j: int| 0 <= j < k ==> #[trigger] buf@[j] == want[j],
            decreases len - k,
        {
            proof {
                assert(k / unit < count) by (nonlinear_arith)
                    requires
                        k < count * unit,
                        unit > 0,
                ;
            }
            assert(self.blocks()[lba + k as int / unit as int].len() == unit);
            assert(k % unit < unit);
            buf[k] = self.sectors[lba as usize + k / unit][k % unit];
            k += 1;
        }
        assert(buf@ =~= want);
        Ok(())
    }

    fn write_blocks(&mut self, lba: u64, count: u32, buf: &[u8]) -> (r: Result<(), BlockError>) {
        let n: usize = self.sectors.len();
        let total: u64 = n as u64;
        let unit: usize = self.sector_size;
        let len: usize = buf.len();
        let ghost before = self.blocks();
        self.record = Ghost(self.record@.push((lba, buf@)));
        assert(self.blocks() == before);
        proof {
            if count != 0 {
                vstd::arithmetic::div_mod::lemma_div_multiples_vanish(count as int, unit as int);
                assert(count * unit == unit * count) by (nonlinear_arith);
            }
        }
        if count == 0 || len % unit != 0 || len / unit != count as usize {
            proof {
                if len == count * unit && count != 0 {
                    vstd::arithmetic::div_mod::lemma_mod_multiples_basic(
                        count as int,
                        unit as int,
                    );
                }
            }
            return Err(BlockError::BadBuffer);
        }
        assert(len == count * unit) by {
            vstd::arithmetic::div_mod::lemma_fundamental_div_mod(len as int, unit as int);
            assert(count * unit == unit * count) by (nonlinear_arith);
        }
        if count as u64 > total || lba > total - count as u64 {
            return Err(BlockError::OutOfRange);
        }
        let mut i: usize = 0;
        while i < count as usize
            invariant
                i <= count,
                len == buf@.len() == count * unit,
                unit == self.sector_size == old(self).sector_size,
                self.name == old(self).name,
                self.record@ == old(self).record@.push((lba, buf@)),
                before == old(self).blocks(),
                self.sectors@.len() == before.len() == n,
                lba + count <= n,
                forall|j: int|
                    0 <= j < before.len() ==> (#[trigger] self.sectors@[j])@ == if lba <= j < lba
                        + i {
                        buf@.subrange((j - lba) * unit, (j - lba) * unit + unit)
                    } else {
                        before[j]
                    },
            decreases count - i,
        {
            assert(i * unit + unit <= count * unit && i * unit >= 0) by (nonlinear_arith)
                requires
                    i < count,
            ;
            let block = crate::bytes::copy_range(buf, i * unit, i * unit + unit);
            self.sectors.set(lba as usize + i, block);
            i += 1;
        }
        assert(self.blocks() =~= overwrite(before, unit as nat, lba as int, count as int, buf@));
        Ok(())
    }
}

/// What is stored in blocks of a device is what they then hold, byte for byte and in order,
/// and all other blocks hold what they did.
pub proof fn law_blocks_hold_what_is_stored(
    blocks: Seq<Seq<u8>>,
    unit: nat,
    lba: int,
    n: int,
    data: Seq<u8>,
    k: int,
)
    requires
        unit > 0,
        0 <= lba,
        0 < n,
        lba + n <= blocks.len(),
        data.len() == n * unit,
        0 <= k < data.len(),
    ensures
        span(overwrite(blocks, unit, lba, n, data), unit, lba, n).len() == data.len(),
        span(overwrite(blocks, unit, lba, n, data), unit, lba, n)[k] == data[k],
        forall|i: int|
            0 <= i < blocks.len() && !(lba <= i < lba + n) ==> #[trigger] overwrite(
                blocks,
                unit,
                lba,
                n,
                data,
            )[i] == blocks[i],
{
    let u = unit as int;
    let q = k / u;
    let r = k % u;
    vstd::arithmetic::div_mod::lemma_fundamental_div_mod(k, u);
    vstd::arithmetic::div_mod::lemma_mod_bound(k, u);
    assert(0 <= q < n) by (nonlinear_arith)
        requires
            k == u * q + r,
            0 <= r < u,
            0 <= k < n * u,
            u > 0,
    ;
    assert(0 <= q * unit && q * unit + unit <= n * unit) by (nonlinear_arith)
        requires
            0 <= q < n,
            unit > 0,
    ;
    assert(u * q == q * unit) by (nonlinear_arith)
        requires
            u == unit,
    ;
    let block = data.subrange(q * unit, q * unit + unit);
    assert(overwrite(blocks, unit, lba, n, data)[lba + q] == block);
    assert(block[r] == data[q * unit + r]);
}

} // verus!
