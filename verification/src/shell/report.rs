//! The texts that the shell's commands print about the system.

use crate::capability::{cap_at, lookup, CapTables, Capability, Object, Slots};
use crate::driver::ahci::{AhciPort, DeviceType};
use crate::driver::ahci_cmd::DriveInfo;
use crate::driver::block::{describes, list, BlockDevice, BlockRegistry};
use crate::driver::dma::{DmaAllocator, DMA_POOL_PHYS_BASE, DMA_POOL_VIRT_BASE};
use crate::driver::irq::{IrqLine, IrqLines};
use crate::driver::pci::{class_name_s, PciDevice};
use crate::kernel::{TaskInfo, HEAP_SIZE, HEAP_START};
use crate::shell::line::History;
use crate::shell::parse::{lines, occurs, split_lines, text_contains};
use crate::text::{
    contents, decimal, flat, hex, left_aligned, lemma_flat_ends, lemma_flat_step, numeral,
    push_decimal, push_hex, push_left, push_number, right_aligned, split_words, words,
};
use vstd::prelude::*;
use vstd::string::{StrSliceExecFns, StringExecFns};
use vstd::utf8::encode_utf8;

verus! {

/// The commands, as `help` lists them.
pub const HELP: &'static str = "Built-in commands:\n\
    \x20 help          show this help\n\
    \x20 ps            list tasks and their states\n\
    \x20 pid           print this shell's task id (via syscall)\n\
    \x20 ticks         timer ticks since boot (via syscall)\n\
    \x20 uptime        approximate uptime in seconds\n\
    \x20 echo <text>   print text via the SYS_PRINT syscall\n\
    \x20 wc            count lines/words/bytes of piped input\n\
    \x20 grep <pat>    print piped-input lines matching <pat>\n\
    \x20 cmd1 | cmd2   pipe cmd1's output into cmd2 (e.g. ps | wc)\n\
    \x20 cmd > file    redirect cmd's output to a NextFS file\n\
    \x20 ipc <n>       RPC 'n' to the demo.pong service\n\
    \x20 caps          show this \
    task's capabilities\n\
    \x20 mem           show heap configuration\n\
    \x20 services      list services registered with the registry\n\
    \x20 irqs          show IRQ line owners and delivered counts\n\
    \x20 dma           show DMA pool usage\n\
    \x20 pci           list PCI devices (also: lspci)\n\
    \x20 ahci          show AHCI SATA devices (also: disks)\n\
    \x20 identify      query all SATA drives (IDENTIFY DEVICE)\n\
    \x20 lsblk         list registered block devices (also: blkdev)\n\
    \x20 blkread <d> <lba>       hex-dump one block from device d\n\
    \x20 blkwrite <d> <lba> <s>  write string s into block at lba\n\
    \x20 mkfs.nextfs <dev>       format a block device with NextFS\n\
    \x20 mount <dev>             mount a NextFS from block device\n\
    \x20 unmount                   unmount the current filesystem\n\
    \x20 nxls [path]               list NextFS directory (default: root)\n\
    \x20 nxcat <path>              print NextFS file contents\n\
    \x20 nxwrite <path> <text>     write text to NextFS file\n\
    \x20 nxmkdir <path>            create NextFS directory\n\
    \x20 nxrm <path>               remove NextFS file\n\
    \x20 nxrmdir <path>            remove NextFS directory (must be empty)\n\
    \x20 nxtruncate <path> <size>  truncate NextFS file to size\n\
    \x20 nxstat <path>             show inode metadata (mode/owner/size)\n\
    \x20 nxchmod <octal> <path>    change permission bits\n\
    \x20 nxchown <uid> <gid> <path> change owner/group\n\
    \x20 ls [path]     list a directory (via VFS over IPC)\n\
    \x20 cat <path>    print a file's contents (via VFS)\n\
    \x20 write <p> <s> write string <s> to file <p> (via VFS)\n\
    \x20 touch <path>  create an empty file (via VFS)\n\
    \x20 mkdir <path>  create a directory (via VFS)\n\
    \x20 rm <path>     remove a file or empty dir (via VFS)\n\
    \x20 stat <path>   show metadata for a path (via VFS)\n\
    \x20 int3          trigger a breakpoint exception (safe)\n\
    \x20 clear         clear the screen\n\
    \x20 colors        show the ANSI colour palette\n\
    \x20 history       show recent command history (persists across reboots)\n\
    line editing: arrows move/recall, Home/End jump, Del forward-deletes\n\
    scrollback: PageUp/PageDown scroll this window's history\n";

/// A number, right-aligned in a field.
pub open spec fn field(n: nat, width: int) -> Seq<char> {
    right_aligned(decimal(n), ' ', width)
}

/// A hexadecimal number, filled with zeros.
pub open spec fn hex_field(n: nat, width: int) -> Seq<char> {
    right_aligned(hex(n), '0', width)
}

/// Appends a number, right-aligned in a field.
fn push_field(s: &mut String, n: u64, width: usize)
    ensures
        final(s)@ == old(s)@ + field(n as nat, width as int),
{
    push_number(s, n, 10, ' ', width);
}

/// Appends a hexadecimal number, filled with zeros.
fn push_hex_field(s: &mut String, n: u64, width: usize)
    ensures
        final(s)@ == old(s)@ + hex_field(n as nat, width as int),
{
    push_number(s, n, 16, '0', width);
}

/// A line of the history listing.
pub open spec fn history_line(i: int, entry: Seq<char>) -> Seq<char> {
    "  "@ + field((i + 1) as nat, 3) + "  "@ + entry + "\n"@
}

/// The history, numbered from one.
pub open spec fn history_s(h: Seq<Seq<char>>) -> Seq<char> {
    flat(Seq::new(h.len(), |i: int| history_line(i, h[i])))
}

/// Lists the history.
pub fn history_text(h: &History) -> (r: String)
    ensures
        r@ == history_s(h@),
{
    let ghost all = Seq::new(h@.len(), |i: int| history_line(i, h@[i]));
    let mut out = String::new();
    let n: usize = h.len();
    let mut i: usize = 0;
    let ghost head = out@;
    proof {
        lemma_flat_ends(head, all);
    }
    while i < n
        invariant
            n == h@.len(),
            i <= n,
            all == Seq::new(h@.len(), |i: int| history_line(i, h@[i])),
            out@ == head + flat(all.take(i as int)),
        decreases n - i,
    {
        let mut l = "  ".to_owned();
        push_field(&mut l, i as u64 + 1, 3);
        l.append("  ");
        l.append(h.get(i));
        l.append("\n");
        out.append(l.as_str());
        proof {
            lemma_flat_step(head, all, i as int);
        }
        i = i + 1;
    }
    assert(head + flat(all) =~= flat(all));
    out
}

/// A line of the task listing.
pub open spec fn task_line(t: TaskInfo) -> Seq<char> {
    "  "@ + field(t.id as nat, 2) + "  "@ + left_aligned(t.state@, 8) + "  "@ + t.name@ + "\n"@
}

/// The task listing.
pub open spec fn tasks_s(tasks: Seq<TaskInfo>) -> Seq<char> {
    "  ID  STATE     NAME\n"@ + flat(Seq::new(tasks.len(), |i: int| task_line(tasks[i])))
}

/// Lists the tasks.
pub fn tasks_text(tasks: &Vec<TaskInfo>) -> (r: String)
    ensures
        r@ == tasks_s(tasks@),
{
    let mut out = "  ID  STATE     NAME\n".to_owned();
    let ghost all = Seq::new(tasks@.len(), |i: int| task_line(tasks@[i]));
    let ghost head = out@;
    let n: usize = tasks.len();
    let mut i: usize = 0;
    proof {
        lemma_flat_ends(head, all);
    }
    while i < n
        invariant
            n == tasks@.len(),
            i <= n,
            all == Seq::new(tasks@.len(), |i: int| task_line(tasks@[i])),
            out@ == head + flat(all.take(i as int)),
        decreases n - i,
    {
        let t = &tasks[i];
        let mut l = "  ".to_owned();
        push_field(&mut l, t.id, 2);
        l.append("  ");
        push_left(&mut l, t.state.as_str(), 8);
        l.append("  ");
        l.append(t.name.as_str());
        l.append("\n");
        out.append(l.as_str());
        proof {
            lemma_flat_step(head, all, i as int);
        }
        i = i + 1;
    }
    out
}

/// The task number of the shell.
pub fn pid_text(me: u64) -> (r: String)
    ensures
        r@ == "shell task id = "@ + decimal(me as nat) + "\n"@,
{
    let mut out = "shell task id = ".to_owned();
    push_decimal(&mut out, me);
    out.append("\n");
    out
}

/// The timer ticks since boot.
pub fn ticks_text(t: u64) -> (r: String)
    ensures
        r@ == "ticks = "@ + decimal(t as nat) + "\n"@,
{
    let mut out = "ticks = ".to_owned();
    push_decimal(&mut out, t);
    out.append("\n");
    out
}

/// The ticks since boot, and roughly how many seconds those are.
pub fn uptime_text(t: u64) -> (r: String)
    ensures
        r@ == "ticks = "@ + decimal(t as nat) + " (~"@ + decimal((t / 18) as nat)
            + " s at 18.2 Hz)\n"@,
{
    let mut out = "ticks = ".to_owned();
    push_decimal(&mut out, t);
    out.append(" (~");
    push_decimal(&mut out, t / 18);
    out.append(" s at 18.2 Hz)\n");
    out
}

/// A text on a line of its own.
pub fn echo_text(t: &str) -> (r: String)
    ensures
        r@ == t@ + "\n"@,
{
    t.to_owned().concat("\n")
}

/// The numbers of lines, words and bytes of a text.
pub open spec fn count_s(t: Seq<char>) -> Seq<char> {
    "  "@ + field(lines(t).len(), 6) + " "@ + field(words(t).len(), 6) + " "@ + field(
        encode_utf8(t).len(),
        6,
    ) + "\n"@
}

/// Counts lines, words and bytes.
pub fn count_text(t: &str) -> (r: String)
    ensures
        r@ == count_s(t@),
{
    let ls = split_lines(t);
    let ws = split_words(t);
    let bytes: usize = t.as_bytes().len();
    let mut out = "  ".to_owned();
    push_field(&mut out, ls.len() as u64, 6);
    out.append(" ");
    push_field(&mut out, ws.len() as u64, 6);
    out.append(" ");
    push_field(&mut out, bytes as u64, 6);
    out.append("\n");
    out
}

/// A line, if it contains the pattern.
pub open spec fn matching(line: Seq<char>, pat: Seq<char>) -> Seq<char> {
    if occurs(line, pat) {
        line + "\n"@
    } else {
        Seq::empty()
    }
}

/// The lines that contain the pattern.
pub open spec fn grep_s(t: Seq<char>, pat: Seq<char>) -> Seq<char> {
    flat(Seq::new(lines(t).len(), |i: int| matching(lines(t)[i], pat)))
}

/// Finds the lines that contain a pattern.
pub fn grep_text(t: &str, pat: &str) -> (r: String)
    ensures
        r@ == grep_s(t@, pat@),
{
    let ls = split_lines(t);
    let mut out = String::new();
    let ghost all = Seq::new(lines(t@).len(), |i: int| matching(lines(t@)[i], pat@));
    let ghost head = out@;
    let n: usize = ls.len();
    let mut i: usize = 0;
    proof {
        lemma_flat_ends(head, all);
    }
    while i < n
        invariant
            n == ls@.len(),
            i <= n,
            contents(ls@) == lines(t@),
            all == Seq::new(lines(t@).len(), |i: int| matching(lines(t@)[i], pat@)),
            out@ == head + flat(all.take(i as int)),
        decreases n - i,
    {
        assert(lines(t@)[i as int] == ls@[i as int]@);
        let mut l = String::new();
        if text_contains(ls[i].as_str(), pat) {
            l = ls[i].as_str().to_owned().concat("\n");
        } else {
            assert(l@ =~= Seq::<char>::empty());
        }
        out.append(l.as_str());
        proof {
            lemma_flat_step(head, all, i as int);
        }
        i = i + 1;
    }
    assert(head + flat(all) =~= flat(all));
    out
}

/// The words for a kernel object.
pub open spec fn object_text(o: Object) -> Seq<char> {
    match o {
        Object::Endpoint(e) => "Endpoint("@ + decimal(e as nat) + ")"@,
        Object::Memory { base, len } => "Memory { base: "@ + decimal(base as nat) + ", len: "@
            + decimal(len as nat) + " }"@,
        Object::Irq(i) => "Irq("@ + decimal(i as nat) + ")"@,
        Object::Port { base, count } => "Port { base: "@ + decimal(base as nat) + ", count: "@
            + decimal(count as nat) + " }"@,
        Object::Mmio { phys_base, len } => "Mmio { phys_base: "@ + decimal(phys_base as nat)
            + ", len: "@ + decimal(len as nat) + " }"@,
        Object::Role(n) => "Role("@ + decimal(n as nat) + ")"@,
    }
}

/// Two numbers between words.
fn pair_text(a: &str, x: u64, b: &str, y: u64, c: &str) -> (r: String)
    ensures
        r@ == a@ + decimal(x as nat) + b@ + decimal(y as nat) + c@,
{
    let mut out = a.to_owned();
    push_decimal(&mut out, x);
    out.append(b);
    push_decimal(&mut out, y);
    out.append(c);
    out
}

/// A number between words.
fn single_text(a: &str, x: u64, b: &str) -> (r: String)
    ensures
        r@ == a@ + decimal(x as nat) + b@,
{
    let mut out = a.to_owned();
    push_decimal(&mut out, x);
    out.append(b);
    out
}

impl Object {
    /// The words for the object.
    pub fn describe(&self) -> (r: String)
        ensures
            r@ == object_text(*self),
    {
        match *self {
            Object::Endpoint(e) => single_text("Endpoint(", e, ")"),
            Object::Memory { base, len } => pair_text("Memory { base: ", base, ", len: ", len, " }"),
            Object::Irq(i) => single_text("Irq(", i as u64, ")"),
            Object::Port { base, count } => pair_text(
                "Port { base: ",
                base as u64,
                ", count: ",
                count as u64,
                " }",
            ),
            Object::Mmio { phys_base, len } => pair_text(
                "Mmio { phys_base: ",
                phys_base,
                ", len: ",
                len,
                " }",
            ),
            Object::Role(n) => single_text("Role(", n, ")"),
        }
    }
}

/// The line for a slot, if there is a capability in it.
pub open spec fn cap_line(slot: int, cap: Option<Capability>) -> Seq<char> {
    match cap {
        Some(c) => "  slot "@ + decimal(slot as nat) + " -> "@ + object_text(c.object)
            + " rights=0b"@ + right_aligned(numeral(c.rights.0 as nat, 2), '0', 5) + "\n"@,
        None => Seq::empty(),
    }
}

/// The capabilities in the first slots of a task.
pub open spec fn caps_s(tables: Map<u64, Slots>, me: u64) -> Seq<char> {
    let rows = flat(Seq::new(8, |i: int| cap_line(i, cap_at(tables, me, i))));
    let head = "capabilities for task "@ + decimal(me as nat) + ":\n"@;
    if forall|i: int| 0 <= i < 8 ==> cap_at(tables, me, i) is None {
        head + rows + "  (none)\n"@
    } else {
        head + rows
    }
}

/// Lists the capabilities in the first slots of a task.
pub fn caps_text(tables: &CapTables, me: u64) -> (r: String)
    ensures
        r@ == caps_s(tables@, me),
{
    let mut out = "capabilities for task ".to_owned();
    push_decimal(&mut out, me);
    out.append(":\n");
    let mut found: bool = false;
    let ghost all = Seq::new(8, |i: int| cap_line(i, cap_at(tables@, me, i)));
    let ghost head = out@;
    let n: usize = 8;
    let mut i: usize = 0;
    proof {
        lemma_flat_ends(head, all);
    }
    while i < n
        invariant
            n == 8,
            i <= n,
            found == (exists|j: int| 0 <= j < i && cap_at(tables@, me, j) is Some),
            all == Seq::new(8, |i: int| cap_line(i, cap_at(tables@, me, i))),
            out@ == head + flat(all.take(i as int)),
        decreases n - i,
    {
        let mut l = String::new();
        match lookup(tables, me, i) {
            Some(c) => {
                found = true;
                l = "  slot ".to_owned();
                push_decimal(&mut l, i as u64);
                l.append(" -> ");
                let o = c.object.describe();
                l.append(o.as_str());
                l.append(" rights=0b");
                push_number(&mut l, c.rights.0 as u64, 2, '0', 5);
                l.append("\n");
            },
            None => {
                assert(l@ =~= Seq::<char>::empty());
            },
        }
        out.append(l.as_str());
        proof {
            lemma_flat_step(head, all, i as int);
        }
        i = i + 1;
    }
    if !found {
        out.append("  (none)\n");
    }
    out
}

/// Where the kernel heap is.
pub fn heap_text() -> (r: String)
    ensures
        r@ == "kernel heap: start=0x"@ + hex(HEAP_START as nat) + " size="@ + decimal(
            (HEAP_SIZE / 1024) as nat,
        ) + " KiB\n"@,
{
    let mut out = "kernel heap: start=0x".to_owned();
    push_hex(&mut out, HEAP_START);
    out.append(" size=");
    push_decimal(&mut out, HEAP_SIZE / 1024);
    out.append(" KiB\n");
    out
}

/// What a line is used for.
pub open spec fn irq_label(irq: int) -> Seq<char> {
    if irq == 0 {
        " (timer)"@
    } else if irq == 1 {
        " (keyboard)"@
    } else {
        ""@
    }
}

/// The row of an interrupt line that has an owner or was used.
pub open spec fn irq_line(irq: int, l: IrqLine) -> Seq<char> {
    if l.owner != 0 || l.count != 0 {
        "  "@ + field(irq as nat, 3) + "  "@ + field(l.owner as nat, 11) + "  "@ + decimal(
            l.count as nat,
        ) + irq_label(irq) + "\n"@
    } else {
        Seq::empty()
    }
}

/// The interrupt lines that have an owner or were used.
pub open spec fn irqs_s(ls: Seq<IrqLine>) -> Seq<char> {
    "IRQ line owners and delivered counts:\n  IRQ  OWNER(task)  DELIVERED\n"@ + flat(
        Seq::new(16, |i: int| irq_line(i, ls[i])),
    )
}

/// Lists the interrupt lines that have an owner or were used.
pub fn irqs_text(irqs: &IrqLines) -> (r: String)
    requires
        irqs.wf(),
    ensures
        r@ == irqs_s(irqs@),
{
    let mut out = "IRQ line owners and delivered counts:\n  IRQ  OWNER(task)  DELIVERED\n".to_owned();
    let ghost all = Seq::new(16, |i: int| irq_line(i, irqs@[i]));
    let ghost head = out@;
    let n: usize = 16;
    let mut i: usize = 0;
    proof {
        lemma_flat_ends(head, all);
    }
    while i < n
        invariant
            n == 16,
            i <= n,
            irqs.wf(),
            all == Seq::new(16, |i: int| irq_line(i, irqs@[i])),
            out@ == head + flat(all.take(i as int)),
        decreases n - i,
    {
        let mut l = String::new();
        assert(l@ =~= Seq::<char>::empty());
        if let Some((owner, count)) = irqs.stats(i as u8) {
            if owner != 0 || count != 0 {
                l = "  ".to_owned();
                push_field(&mut l, i as u64, 3);
                l.append("  ");
                push_field(&mut l, owner, 11);
                l.append("  ");
                push_decimal(&mut l, count);
                l.append(
                    if i == 0 {
                        " (timer)"
                    } else if i == 1 {
                        " (keyboard)"
                    } else {
                        ""
                    },
                );
                l.append("\n");
            }
        }
        out.append(l.as_str());
        proof {
            lemma_flat_step(head, all, i as int);
        }
        i = i + 1;
    }
    out
}

/// How much of the DMA pool is used.
pub open spec fn dma_s(used: u64, total: u64) -> Seq<char> {
    "DMA pool: "@ + decimal(used as nat) + " / "@ + decimal(total as nat) + " bytes used ("@
        + decimal(
        if total > 0 {
            (used * 100 / total as int) as nat
        } else {
            0
        },
    ) + "%)\n  "@ + decimal((total / 0x10_0000) as nat) + " MiB pool at phys 0x"@ + hex(
        DMA_POOL_PHYS_BASE as nat,
    ) + ", virt 0x"@ + hex(DMA_POOL_VIRT_BASE as nat) + "\n"@
}

/// Says how much of the DMA pool is used.
pub fn dma_text(dma: &DmaAllocator) -> (r: String)
    requires
        dma.wf(),
    ensures
        r@ == dma_s(dma.next_offset, dma.size),
{
    let (used, total) = dma.stats();
    let pct: u64 = if total > 0 {
        used * 100 / total
    } else {
        0
    };
    let mut out = "DMA pool: ".to_owned();
    push_decimal(&mut out, used);
    out.append(" / ");
    push_decimal(&mut out, total);
    out.append(" bytes used (");
    push_decimal(&mut out, pct);
    out.append("%)\n  ");
    push_decimal(&mut out, total / 0x10_0000);
    out.append(" MiB pool at phys 0x");
    push_hex(&mut out, DMA_POOL_PHYS_BASE);
    out.append(", virt 0x");
    push_hex(&mut out, DMA_POOL_VIRT_BASE);
    out.append("\n");
    out
}

/// The row of a PCI device.
pub open spec fn pci_line(d: PciDevice) -> Seq<char> {
    "  "@ + hex_field(d.bus as nat, 2) + ":"@ + hex_field(d.device as nat, 2) + "."@ + decimal(
        d.function as nat,
    ) + "     "@ + hex_field(d.vendor_id as nat, 4) + ":"@ + hex_field(d.device_id as nat, 4)
        + "     "@ + hex_field(d.class_code as nat, 2) + ":"@ + hex_field(d.subclass as nat, 2)
        + ":"@ + hex_field(d.prog_if as nat, 2) + "   "@ + class_name_s(
        d.class_code,
        d.subclass,
        d.prog_if,
    ) + "\n"@
}

/// The PCI devices.
pub open spec fn pci_s(devices: Seq<PciDevice>) -> Seq<char> {
    "PCI devices ("@ + decimal(devices.len()) + " found):\n"@
        + "  BUS:DEV.FN  VENDOR:DEVICE  CLASS        DESCRIPTION\n"@ + flat(
        Seq::new(devices.len(), |i: int| pci_line(devices[i])),
    )
}

/// Lists the PCI devices.
pub fn pci_text(devices: &Vec<PciDevice>) -> (r: String)
    ensures
        r@ == pci_s(devices@),
{
    let mut out = "PCI devices (".to_owned();
    push_decimal(&mut out, devices.len() as u64);
    out.append(" found):\n");
    out.append("  BUS:DEV.FN  VENDOR:DEVICE  CLASS        DESCRIPTION\n");
    let ghost all = Seq::new(devices@.len(), |i: int| pci_line(devices@[i]));
    let ghost head = out@;
    let n: usize = devices.len();
    let mut i: usize = 0;
    proof {
        lemma_flat_ends(head, all);
    }
    while i < n
        invariant
            n == devices@.len(),
            i <= n,
            all == Seq::new(devices@.len(), |i: int| pci_line(devices@[i])),
            out@ == head + flat(all.take(i as int)),
        decreases n - i,
    {
        let d = &devices[i];
        let mut l = "  ".to_owned();
        push_hex_field(&mut l, d.bus as u64, 2);
        l.append(":");
        push_hex_field(&mut l, d.device as u64, 2);
        l.append(".");
        push_decimal(&mut l, d.function as u64);
        l.append("     ");
        push_hex_field(&mut l, d.vendor_id as u64, 4);
        l.append(":");
        push_hex_field(&mut l, d.device_id as u64, 4);
        l.append("     ");
        push_hex_field(&mut l, d.class_code as u64, 2);
        l.append(":");
        push_hex_field(&mut l, d.subclass as u64, 2);
        l.append(":");
        push_hex_field(&mut l, d.prog_if as u64, 2);
        l.append("   ");
        l.append(d.class_name());
        l.append("\n");
        out.append(l.as_str());
        proof {
            lemma_flat_step(head, all, i as int);
        }
        i = i + 1;
    }
    out
}

/// The words for a device type.
pub open spec fn type_word(t: DeviceType) -> Seq<char> {
    match t {
        DeviceType::Unknown => "None"@,
        DeviceType::Sata => "Sata"@,
        DeviceType::Atapi => "Atapi"@,
        DeviceType::Semb => "Semb"@,
        DeviceType::PortMultiplier => "PortMultiplier"@,
    }
}

/// The word for a device type.
fn device_word(t: DeviceType) -> (r: &'static str)
    ensures
        r@ == type_word(t),
{
    match t {
        DeviceType::Unknown => "None",
        DeviceType::Sata => "Sata",
        DeviceType::Atapi => "Atapi",
        DeviceType::Semb => "Semb",
        DeviceType::PortMultiplier => "PortMultiplier",
    }
}

/// The row of a disk port.
pub open spec fn port_line(p: AhciPort) -> Seq<char> {
    "  "@ + field(p.index as nat, 4) + "  "@ + left_aligned(type_word(p.device_type), 16) + "  0x"@
        + hex_field(p.signature as nat, 8) + "\n"@
}

/// The disk ports with a device.
pub open spec fn ports_s(ports: Seq<AhciPort>) -> Seq<char> {
    if ports.len() == 0 {
        "No AHCI devices detected (controller not found or no disks attached)\n"@
    } else {
        "AHCI devices ("@ + decimal(ports.len()) + " detected):\n"@
            + "  PORT  TYPE              SIGNATURE\n"@ + flat(
            Seq::new(ports.len(), |i: int| port_line(ports[i])),
        )
    }
}

/// Lists the disk ports with a device.
pub fn ports_text(ports: &Vec<AhciPort>) -> (r: String)
    ensures
        r@ == ports_s(ports@),
{
    if ports.len() == 0 {
        return "No AHCI devices detected (controller not found or no disks attached)\n".to_owned();
    }
    let mut out = "AHCI devices (".to_owned();
    push_decimal(&mut out, ports.len() as u64);
    out.append(" detected):\n");
    out.append("  PORT  TYPE              SIGNATURE\n");
    let ghost all = Seq::new(ports@.len(), |i: int| port_line(ports@[i]));
    let ghost head = out@;
    let n: usize = ports.len();
    let mut i: usize = 0;
    proof {
        lemma_flat_ends(head, all);
    }
    while i < n
        invariant
            n == ports@.len(),
            i <= n,
            all == Seq::new(ports@.len(), |i: int| port_line(ports@[i])),
            out@ == head + flat(all.take(i as int)),
        decreases n - i,
    {
        let p = &ports[i];
        let mut l = "  ".to_owned();
        push_field(&mut l, p.index as u64, 4);
        l.append("  ");
        push_left(&mut l, device_word(p.device_type), 16);
        l.append("  0x");
        push_hex_field(&mut l, p.signature as u64, 8);
        l.append("\n");
        out.append(l.as_str());
        proof {
            lemma_flat_step(head, all, i as int);
        }
        i = i + 1;
    }
    out
}

/// The line that begins the report on a port.
pub open spec fn query_s(p: AhciPort) -> Seq<char> {
    if p.device_type != DeviceType::Sata {
        "Port "@ + decimal(p.index as nat) + ": "@ + type_word(p.device_type)
            + " device (skipping, not SATA)\n"@
    } else {
        "Port "@ + decimal(p.index as nat) + ": issuing IDENTIFY DEVICE...\n"@
    }
}

/// Begins the report on a port. Only SATA devices are queried.
pub fn query_text(p: &AhciPort) -> (r: (String, bool))
    ensures
        r.0@ == query_s(*p),
        r.1 == (p.device_type == DeviceType::Sata),
{
    let mut out = "Port ".to_owned();
    push_decimal(&mut out, p.index as u64);
    if p.device_type != DeviceType::Sata {
        out.append(": ");
        out.append(device_word(p.device_type));
        out.append(" device (skipping, not SATA)\n");
        (out, false)
    } else {
        out.append(": issuing IDENTIFY DEVICE...\n");
        (out, true)
    }
}

/// What a drive said of itself.
pub open spec fn drive_s(info: Option<DriveInfo>) -> Seq<char> {
    match info {
        Some(d) => "  Model:       "@ + d.model@ + "\n  Serial:      "@ + d.serial@
            + "\n  Sectors:     "@ + decimal(d.sectors as nat) + " ("@ + decimal(
            (d.sectors * d.sector_size / 0x10_0000) as nat,
        ) + " MiB)\n  Sector size: "@ + decimal(d.sector_size as nat) + " bytes\n"@,
        None => "  IDENTIFY DEVICE failed (timeout or error)\n"@,
    }
}

/// Reports what a drive said of itself.
pub fn drive_text(info: &Option<DriveInfo>) -> (r: String)
    requires
        info matches Some(d) ==> d.sectors * d.sector_size <= u64::MAX,
    ensures
        r@ == drive_s(*info),
{
    match info {
        None => "  IDENTIFY DEVICE failed (timeout or error)\n".to_owned(),
        Some(d) => {
            let mut out = "  Model:       ".to_owned();
            out.append(d.model.as_str());
            out.append("\n  Serial:      ");
            out.append(d.serial.as_str());
            out.append("\n  Sectors:     ");
            push_decimal(&mut out, d.sectors);
            out.append(" (");
            let size: u64 = d.sectors * d.sector_size as u64;
            push_decimal(&mut out, size / 0x10_0000);
            out.append(" MiB)\n  Sector size: ");
            push_decimal(&mut out, d.sector_size as u64);
            out.append(" bytes\n");
            out
        },
    }
}

/// The row of a block device.
pub open spec fn device_line(i: int, name: Seq<char>, unit: nat, count: nat) -> Seq<char> {
    "  "@ + field(i as nat, 3) + "  "@ + left_aligned(name, 6) + "  "@ + field(unit, 5) + "   "@
        + field(count, 11) + "   "@ + decimal((unit * count / 0x10_0000) as nat) + " MiB\n"@
}

/// The block devices.
pub open spec fn devices_s<D: BlockDevice>(devs: Seq<D>) -> Seq<char> {
    if devs.len() == 0 {
        "No block devices registered (no SATA disks?)\n"@
    } else {
        "Block devices ("@ + decimal(devs.len())
            + "):\n  IDX  NAME    BLKSZ   BLOCKS        CAPACITY\n"@ + flat(
            Seq::new(
                devs.len(),
                |i: int|
                    device_line(i, devs[i].label(), devs[i].unit(), devs[i].blocks().len()),
            ),
        )
    }
}

/// The capacities of the devices can be told.
pub open spec fn capacities_ok<D: BlockDevice>(devs: Seq<D>) -> bool {
    forall|i: int|
        0 <= i < devs.len() ==> #[trigger] devs[i].unit() * devs[i].blocks().len() <= u64::MAX
}

/// Lists the block devices.
pub fn devices_text<D: BlockDevice>(devs: &BlockRegistry<D>) -> (r: String)
    requires
        capacities_ok(devs@),
    ensures
        r@ == devices_s(devs@),
{
    let infos = list(devs);
    if infos.len() == 0 {
        return "No block devices registered (no SATA disks?)\n".to_owned();
    }
    let mut out = "Block devices (".to_owned();
    push_decimal(&mut out, infos.len() as u64);
    out.append("):\n  IDX  NAME    BLKSZ   BLOCKS        CAPACITY\n");
    let ghost all = Seq::new(devs@.len(), |i: int| device_line(i, devs@[i].label(), devs@[i].unit(), devs@[i].blocks().len()));
    let ghost head = out@;
    let n: usize = infos.len();
    let mut i: usize = 0;
    proof {
        lemma_flat_ends(head, all);
    }
    while i < n
        invariant
            n == infos@.len(),
            i <= n,
            capacities_ok(devs@),
            infos@.len() == devs@.len(),
            forall|j: int| 0 <= j < devs@.len() ==> describes(#[trigger] infos@[j], j, devs@[j]),
            all == Seq::new(devs@.len(), |i: int| device_line(i, devs@[i].label(), devs@[i].unit(), devs@[i].blocks().len())),
            out@ == head + flat(all.take(i as int)),
        decreases n - i,
    {
        let d = &infos[i];
        assert(describes(infos@[i as int], i as int, devs@[i as int]));
        let unit: u64 = d.block_size as u64;
        let count: u64 = d.block_count;
        assert(unit * count == devs@[i as int].unit() * devs@[i as int].blocks().len());
        let mut l = "  ".to_owned();
        push_field(&mut l, d.index as u64, 3);
        l.append("  ");
        push_left(&mut l, d.name.as_str(), 6);
        l.append("  ");
        push_field(&mut l, unit, 5);
        l.append("   ");
        push_field(&mut l, count, 11);
        l.append("   ");
        push_decimal(&mut l, unit * count / 0x10_0000);
        l.append(" MiB\n");
        out.append(l.as_str());
        proof {
            lemma_flat_step(head, all, i as int);
        }
        i = i + 1;
    }
    out
}

/// The names of the registered services.
pub open spec fn services_s(names: Seq<Seq<char>>) -> Seq<char> {
    if names.len() == 0 {
        "registry has no services yet (still booting?)\n"@
    } else {
        "registered services:\n"@ + names_s(names)
    }
}

/// Names, one on each line.
pub open spec fn names_s(names: Seq<Seq<char>>) -> Seq<char> {
    flat(Seq::new(names.len(), |i: int| "  "@ + names[i] + "\n"@))
}

/// Names, one on each line.
pub fn names_text(names: &Vec<String>) -> (r: String)
    ensures
        r@ == names_s(contents(names@)),
{
    let mut out = String::new();
    let ghost all = Seq::new(contents(names@).len(), |i: int| "  "@ + contents(names@)[i] + "\n"@);
    let ghost head = out@;
    let n: usize = names.len();
    let mut i: usize = 0;
    proof {
        lemma_flat_ends(head, all);
    }
    while i < n
        invariant
            n == names@.len(),
            i <= n,
            all == Seq::new(contents(names@).len(), |i: int| "  "@ + contents(names@)[i] + "\n"@),
            out@ == head + flat(all.take(i as int)),
        decreases n - i,
    {
        let mut l = "  ".to_owned();
        assert(contents(names@)[i as int] == names@[i as int]@);
        l.append(names[i].as_str());
        l.append("\n");
        out.append(l.as_str());
        proof {
            lemma_flat_step(head, all, i as int);
        }
        i = i + 1;
    }
    assert(head + flat(all) =~= flat(all));
    out
}

/// Lists the registered services.
pub fn services_text(names: &Vec<String>) -> (r: String)
    ensures
        r@ == services_s(contents(names@)),
{
    if names.len() == 0 {
        return "registry has no services yet (still booting?)\n".to_owned();
    }
    let mut out = "registered services:\n".to_owned();
    let l = names_text(names);
    out.append(l.as_str());
    out
}

/// A byte as it is shown beside a dump.
pub open spec fn shown(b: u8) -> char {
    if 0x20 <= b < 0x7f {
        b as char
    } else {
        '.'
    }
}

/// The column of byte `j` of a row; there is a gap in the middle.
pub open spec fn dump_cell(row: Seq<u8>, j: int) -> Seq<char> {
    let cell = if j < row.len() {
        hex_field(row[j] as nat, 2) + " "@
    } else {
        "   "@
    };
    if j == 7 {
        cell + " "@
    } else {
        cell
    }
}

/// A row of a dump.
pub open spec fn dump_row(off: int, row: Seq<u8>) -> Seq<char> {
    "  "@ + hex_field(off as nat, 4) + ": "@ + flat(Seq::new(16, |j: int| dump_cell(row, j)))
        + " |"@ + row.map_values(|b: u8| shown(b)) + "|\n"@
}

/// Row `i` of the bytes, sixteen in each.
pub open spec fn row_of(data: Seq<u8>, i: int) -> Seq<u8> {
    data.subrange(
        16 * i,
        if 16 * i + 16 <= data.len() {
            16 * i + 16
        } else {
            data.len() as int
        },
    )
}

/// The bytes in rows of sixteen, as numbers and as characters.
pub open spec fn dump_s(data: Seq<u8>) -> Seq<char> {
    flat(Seq::new(((data.len() + 15) / 16) as nat, |i: int| dump_row(16 * i, row_of(data, i))))
}

/// A row of a dump.
fn dump_row_text(off: usize, data: &[u8], from: usize, to: usize) -> (r: String)
    requires
        from <= to <= data@.len(),
        to - from <= 16,
    ensures
        r@ == dump_row(off as int, data@.subrange(from as int, to as int)),
{
    let ghost row = data@.subrange(from as int, to as int);
    let m: usize = to - from;
    let mut out = "  ".to_owned();
    push_hex_field(&mut out, off as u64, 4);
    out.append(": ");
    let ghost all = Seq::new(16, |j: int| dump_cell(row, j));
    let ghost head = out@;
    let n: usize = 16;
    let mut i: usize = 0;
    proof {
        lemma_flat_ends(head, all);
    }
    while i < n
        invariant
            n == 16,
            i <= n,
            from <= to <= data@.len(),
            m == to - from,
            row == data@.subrange(from as int, to as int),
            all == Seq::new(16, |j: int| dump_cell(row, j)),
            out@ == head + flat(all.take(i as int)),
        decreases n - i,
    {
        let mut l = String::new();
        if i < m {
            push_hex_field(&mut l, data[from + i] as u64, 2);
            assert(l@ =~= hex_field(row[i as int] as nat, 2));
            l.append(" ");
        } else {
            l = "   ".to_owned();
        }
        if i == 7 {
            l.append(" ");
        }
        out.append(l.as_str());
        proof {
            lemma_flat_step(head, all, i as int);
        }
        i = i + 1;
    }
    out.append(" |");
    let ghost before = out@;
    let mut j: usize = 0;
    assert(before + row.take(0).map_values(|b: u8| shown(b)) =~= before);
    while j < m
        invariant
            from <= to <= data@.len(),
            m == to - from,
            row == data@.subrange(from as int, to as int),
            j <= m,
            out@ == before + row.take(j as int).map_values(|b: u8| shown(b)),
        decreases m - j,
    {
        let b: u8 = data[from + j];
        assert(b == row[j as int]);
        out.push(
            if 0x20 <= b && b < 0x7f {
                b as char
            } else {
                '.'
            },
        );
        j = j + 1;
        assert(out@ =~= before + row.take(j as int).map_values(|b: u8| shown(b)));
    }
    assert(row.take(m as int) =~= row);
    out.append("|\n");
    out
}

/// Prints bytes in rows of sixteen, as numbers and as characters.
pub fn hex_dump(data: &[u8]) -> (r: String)
    ensures
        r@ == dump_s(data@),
{
    let mut out = String::new();
    let len: usize = data.len();
    let rows: usize = len / 16 + (if len % 16 == 0 {
        0
    } else {
        1usize
    });
    assert(rows == (len + 15) / 16);
    let ghost all = Seq::new(((data@.len() + 15) / 16) as nat, |i: int| dump_row(16 * i, row_of(data@, i)));
    let ghost head = out@;
    let n: usize = rows;
    let mut i: usize = 0;
    proof {
        lemma_flat_ends(head, all);
    }
    while i < n
        invariant
            n == (data@.len() + 15) / 16,
            i <= n,
            len == data@.len(),
            all == Seq::new(((data@.len() + 15) / 16) as nat, |i: int| dump_row(16 * i, row_of(data@, i))),
            out@ == head + flat(all.take(i as int)),
        decreases n - i,
    {
        let from: usize = 16 * i;
        let to: usize = if len - from >= 16 {
            from + 16
        } else {
            len
        };
        let l = dump_row_text(from, data, from, to);
        out.append(l.as_str());
        proof {
            lemma_flat_step(head, all, i as int);
        }
        i = i + 1;
    }
    assert(head + flat(all) =~= flat(all));
    out
}

/// The name of a colour.
pub open spec fn color_name(i: int) -> Seq<char> {
    if i == 0 {
        "black"@
    } else if i == 1 {
        "red"@
    } else if i == 2 {
        "green"@
    } else if i == 3 {
        "yellow"@
    } else if i == 4 {
        "blue"@
    } else if i == 5 {
        "magenta"@
    } else if i == 6 {
        "cyan"@
    } else {
        "white"@
    }
}

/// A colour, normal and bright.
pub open spec fn color_line(i: int) -> Seq<char> {
    "\x1b["@ + decimal((30 + i) as nat) + "m  "@ + left_aligned(color_name(i), 9)
        + "\x1b[0m\x1b["@ + decimal((90 + i) as nat) + "m  "@ + left_aligned(color_name(i), 9)
        + "\x1b[0m\n"@
}

/// The colours that the terminal can show.
pub open spec fn colors_s() -> Seq<char> {
    "ANSI colours (normal 30-37 / bright 90-97):\n"@ + flat(Seq::new(8, |i: int| color_line(i)))
        + "example: \x1b[32mgreen\x1b[0m \x1b[31mred\x1b[0m \x1b[33myellow\x1b[0m \x1b[36mcyan\x1b[0m \x1b[35mmagenta\x1b[0m\n"@
}

/// Shows the colours.
pub fn colors_text() -> (r: String)
    ensures
        r@ == colors_s(),
{
    let mut out = "ANSI colours (normal 30-37 / bright 90-97):\n".to_owned();
    let ghost all = Seq::new(8, |i: int| color_line(i));
    let ghost head = out@;
    let n: usize = 8;
    let mut i: usize = 0;
    proof {
        lemma_flat_ends(head, all);
    }
    while i < n
        invariant
            n == 8,
            i <= n,
            all == Seq::new(8, |i: int| color_line(i)),
            out@ == head + flat(all.take(i as int)),
        decreases n - i,
    {
        let name = match i {
            0 => "black",
            1 => "red",
            2 => "green",
            3 => "yellow",
            4 => "blue",
            5 => "magenta",
            6 => "cyan",
            _ => "white",
        };
        let mut l = "\x1b[".to_owned();
        push_decimal(&mut l, 30 + i as u64);
        l.append("m  ");
        push_left(&mut l, name, 9);
        l.append("\x1b[0m\x1b[");
        push_decimal(&mut l, 90 + i as u64);
        l.append("m  ");
        push_left(&mut l, name, 9);
        l.append("\x1b[0m\n");
        out.append(l.as_str());
        proof {
            lemma_flat_step(head, all, i as int);
        }
        i = i + 1;
    }
    out.append(
        "example: \x1b[32mgreen\x1b[0m \x1b[31mred\x1b[0m \x1b[33myellow\x1b[0m \x1b[36mcyan\x1b[0m \x1b[35mmagenta\x1b[0m\n",
    );
    out
}

} // verus!
