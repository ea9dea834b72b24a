//! What the QEMU command line never carries: no option that shares a host directory or
//! device with the guest (`virtfs`, `fsdev`, `vfio`, `usb-host`), opens a window
//! (`-nographic` aside, no display at all), bridges the guest onto the host network, or
//! forwards a port between them (`hostfwd`, `guestfwd`).
use crate::lesson::NetworkMode;
use crate::qemu::{
    boot_args, build_args_spec, channel_args, cmdline_parts, head_args, kernel_cmdline_spec,
    lemma_join_adds_no_occurrence, machine_args, network_args,
};
use crate::qemu_path::render_spec;
use crate::text::{contains, decimal, occurs_at};
use crate::vm::{MachineType, VmConfig};
use vstd::prelude::*;

verus! {

/// Words no argument may contain.
pub open spec fn forbidden_words() -> Seq<Seq<char>> {
    seq!["-nographic"@, "virtfs"@, "fsdev"@, "vfio"@, "usb-host"@, "hostfwd"@, "guestfwd"@, "bridge"@]
}

/// `a` contains none of the forbidden words.
pub open spec fn free_of_forbidden(a: Seq<char>) -> bool {
    forall|i: int| 0 <= i < forbidden_words().len() ==> !contains(a, #[trigger] forbidden_words()[i])
}

/// The character `c` occurs nowhere in `s`.
pub open spec fn lacks(s: Seq<char>, c: char) -> bool {
    forall|y: int| 0 <= y < s.len() ==> #[trigger] s[y] != c
}

proof fn lemma_lacking_blocks(s: Seq<char>, w: Seq<char>, k: int)
    requires
        0 <= k < w.len(),
        lacks(s, w[k]),
    ensures
        !contains(s, w),
{
    assert forall|j: int| !occurs_at(s, w, j) by {
        if occurs_at(s, w, j) {
            assert(s.subrange(j, j + w.len())[k] == s[j + k]);
        }
    }
}

proof fn lemma_free_if_lacking(s: Seq<char>, ks: Seq<int>)
    requires
        ks.len() == forbidden_words().len(),
        forall|i: int|
            0 <= i < ks.len() ==> 0 <= #[trigger] ks[i] < forbidden_words()[i].len() && lacks(
                s,
                forbidden_words()[i][ks[i]],
            ),
    ensures
        free_of_forbidden(s),
{
    assert forall|i: int| 0 <= i < forbidden_words().len() implies !contains(s, #[trigger] forbidden_words()[i]) by {
        assert(0 <= ks[i] < forbidden_words()[i].len());
        lemma_lacking_blocks(s, forbidden_words()[i], ks[i]);
    }
}

proof fn lemma_decimal_lacks(n: nat, c: char)
    requires
        !('0' <= c <= '9'),
    ensures
        lacks(decimal(n), c),
    decreases n,
{
    if n >= 10 {
        lemma_decimal_lacks(n / 10, c);
        assert forall|y: int| 0 <= y < decimal(n).len() implies #[trigger] decimal(n)[y] != c by {
            if y < decimal(n / 10).len() {
                assert(decimal(n)[y] == decimal(n / 10)[y]);
            }
        }
    }
}

/// A number's digits contain no forbidden word.
proof fn lemma_decimal_free(n: nat)
    ensures
        free_of_forbidden(decimal(n)),
{
    reveal_strlit("-nographic");
    reveal_strlit("virtfs");
    reveal_strlit("fsdev");
    reveal_strlit("vfio");
    reveal_strlit("usb-host");
    reveal_strlit("hostfwd");
    reveal_strlit("guestfwd");
    reveal_strlit("bridge");
    let ks = seq![0int, 0, 0, 0, 0, 0, 0, 0];
    assert forall|i: int| 0 <= i < ks.len() implies 0 <= #[trigger] ks[i] < forbidden_words()[i].len() && lacks(
        decimal(n),
        forbidden_words()[i][ks[i]],
    ) by {
        lemma_decimal_lacks(n, forbidden_words()[i][0]);
    }
    lemma_free_if_lacking(decimal(n), ks);
}

/// Gluing two pieces makes no forbidden word when the left one ends in a character that no
/// forbidden word has.
proof fn lemma_glued_left(a: Seq<char>, b: Seq<char>)
    requires
        free_of_forbidden(a),
        free_of_forbidden(b),
        a.len() > 0,
        forall|i: int| 0 <= i < forbidden_words().len() ==> lacks(#[trigger] forbidden_words()[i], a.last()),
    ensures
        free_of_forbidden(a + b),
{
    assert forall|i: int| 0 <= i < forbidden_words().len() implies !contains(a + b, #[trigger] forbidden_words()[i]) by {
        let w = forbidden_words()[i];
        assert(!contains(a, w) && !contains(b, w));
        assert forall|j: int| !occurs_at(a + b, w, j) by {
            if occurs_at(a + b, w, j) {
                if j + w.len() <= a.len() {
                    assert((a + b).subrange(j, j + w.len()) =~= a.subrange(j, j + w.len()));
                    assert(occurs_at(a, w, j));
                } else if j >= a.len() {
                    assert((a + b).subrange(j, j + w.len()) =~= b.subrange(j - a.len(), j - a.len() + w.len()));
                    assert(occurs_at(b, w, j - a.len()));
                } else {
                    let x = a.len() - 1 - j;
                    assert((a + b).subrange(j, j + w.len())[x] == (a + b)[a.len() - 1]);
                    assert(w[x] == a.last());
                }
            }
        }
    }
}

/// Gluing two pieces makes no forbidden word when the right one starts with a character that
/// no forbidden word has.
proof fn lemma_glued_right(a: Seq<char>, b: Seq<char>)
    requires
        free_of_forbidden(a),
        free_of_forbidden(b),
        b.len() > 0,
        forall|i: int| 0 <= i < forbidden_words().len() ==> lacks(#[trigger] forbidden_words()[i], b[0]),
    ensures
        free_of_forbidden(a + b),
{
    assert forall|i: int| 0 <= i < forbidden_words().len() implies !contains(a + b, #[trigger] forbidden_words()[i]) by {
        let w = forbidden_words()[i];
        assert(!contains(a, w) && !contains(b, w));
        assert forall|j: int| !occurs_at(a + b, w, j) by {
            if occurs_at(a + b, w, j) {
                if j + w.len() <= a.len() {
                    assert((a + b).subrange(j, j + w.len()) =~= a.subrange(j, j + w.len()));
                    assert(occurs_at(a, w, j));
                } else if j >= a.len() {
                    assert((a + b).subrange(j, j + w.len()) =~= b.subrange(j - a.len(), j - a.len() + w.len()));
                    assert(occurs_at(b, w, j - a.len()));
                } else {
                    let x = a.len() - j;
                    assert((a + b).subrange(j, j + w.len())[x] == (a + b)[a.len() as int]);
                    assert(w[x] == b[0]);
                }
            }
        }
    }
}

/// The fixed leading options and the machine and accelerator values.
proof fn lemma_head_parts_free()
    ensures
        free_of_forbidden("-no-user-config"@),
        free_of_forbidden("-nodefaults"@),
        free_of_forbidden("-machine"@),
        free_of_forbidden("-accel"@),
        free_of_forbidden("-cpu"@),
        free_of_forbidden("max"@),
        free_of_forbidden("-smp"@),
        free_of_forbidden("-m"@),
        free_of_forbidden("-rtc"@),
        free_of_forbidden("base=utc"@),
        free_of_forbidden("-display"@),
        free_of_forbidden("none"@),
        free_of_forbidden("-no-reboot"@),
        free_of_forbidden("microvm,acpi=on,pit=on,pic=off,rtc=on"@),
        free_of_forbidden("q35"@),
        free_of_forbidden("whpx,kernel-irqchip=off"@),
        free_of_forbidden("tcg,thread=single"@),
{
    reveal_strlit("-nographic");
    reveal_strlit("virtfs");
    reveal_strlit("fsdev");
    reveal_strlit("vfio");
    reveal_strlit("usb-host");
    reveal_strlit("hostfwd");
    reveal_strlit("guestfwd");
    reveal_strlit("bridge");
    {
        reveal_strlit("-no-user-config");
        lemma_free_if_lacking("-no-user-config"@, seq![5, 0, 2, 0, 2, 0, 4, 0]);
        assert(free_of_forbidden("-no-user-config"@));
    }
    {
        reveal_strlit("-nodefaults");
        lemma_free_if_lacking("-nodefaults"@, seq![3, 0, 4, 0, 2, 0, 0, 0]);
        assert(free_of_forbidden("-nodefaults"@));
    }
    {
        reveal_strlit("-machine");
        lemma_free_if_lacking("-machine"@, seq![2, 0, 0, 0, 0, 1, 0, 0]);
        assert(free_of_forbidden("-machine"@));
    }
    {
        reveal_strlit("-accel");
        lemma_free_if_lacking("-accel"@, seq![1, 0, 0, 0, 0, 0, 0, 0]);
        assert(free_of_forbidden("-accel"@));
    }
    {
        reveal_strlit("-cpu");
        lemma_free_if_lacking("-cpu"@, seq![1, 0, 0, 0, 1, 0, 0, 0]);
        assert(free_of_forbidden("-cpu"@));
    }
    {
        reveal_strlit("max");
        lemma_free_if_lacking("max"@, seq![0, 0, 0, 0, 0, 0, 0, 0]);
        assert(free_of_forbidden("max"@));
    }
    {
        reveal_strlit("-smp");
        lemma_free_if_lacking("-smp"@, seq![1, 0, 0, 0, 0, 0, 0, 0]);
        assert(free_of_forbidden("-smp"@));
    }
    {
        reveal_strlit("-m");
        lemma_free_if_lacking("-m"@, seq![1, 0, 0, 0, 0, 0, 0, 0]);
        assert(free_of_forbidden("-m"@));
    }
    {
        reveal_strlit("-rtc");
        lemma_free_if_lacking("-rtc"@, seq![1, 0, 0, 0, 0, 0, 0, 0]);
        assert(free_of_forbidden("-rtc"@));
    }
    {
        reveal_strlit("base=utc");
        lemma_free_if_lacking("base=utc"@, seq![0, 0, 0, 0, 3, 0, 0, 1]);
        assert(free_of_forbidden("base=utc"@));
    }
    {
        reveal_strlit("-display");
        lemma_free_if_lacking("-display"@, seq![1, 0, 0, 0, 0, 0, 0, 0]);
        assert(free_of_forbidden("-display"@));
    }
    {
        reveal_strlit("none");
        lemma_free_if_lacking("none"@, seq![0, 0, 0, 0, 0, 0, 0, 0]);
        assert(free_of_forbidden("none"@));
    }
    {
        reveal_strlit("-no-reboot");
        lemma_free_if_lacking("-no-reboot"@, seq![3, 0, 0, 0, 0, 0, 0, 2]);
        assert(free_of_forbidden("-no-reboot"@));
    }
    {
        reveal_strlit("microvm,acpi=on,pit=on,pic=off,rtc=on");
        assert(lacks("microvm,acpi=on,pit=on,pic=off,rtc=on"@, '-'));
        lemma_lacking_blocks("microvm,acpi=on,pit=on,pic=off,rtc=on"@, forbidden_words()[0], 0);
        assert(lacks("microvm,acpi=on,pit=on,pic=off,rtc=on"@, 's'));
        lemma_lacking_blocks("microvm,acpi=on,pit=on,pic=off,rtc=on"@, forbidden_words()[1], 5);
        assert(lacks("microvm,acpi=on,pit=on,pic=off,rtc=on"@, 's'));
        lemma_lacking_blocks("microvm,acpi=on,pit=on,pic=off,rtc=on"@, forbidden_words()[2], 1);
        assert forall|j: int| !occurs_at("microvm,acpi=on,pit=on,pic=off,rtc=on"@, forbidden_words()[3], j) by {
            if occurs_at("microvm,acpi=on,pit=on,pic=off,rtc=on"@, forbidden_words()[3], j) {
                assert("microvm,acpi=on,pit=on,pic=off,rtc=on"@.subrange(j, j + forbidden_words()[3].len())[0] == "microvm,acpi=on,pit=on,pic=off,rtc=on"@[j + 0]);
                assert("microvm,acpi=on,pit=on,pic=off,rtc=on"@.subrange(j, j + forbidden_words()[3].len())[1] == "microvm,acpi=on,pit=on,pic=off,rtc=on"@[j + 1]);
            }
        }
        assert(lacks("microvm,acpi=on,pit=on,pic=off,rtc=on"@, 'u'));
        lemma_lacking_blocks("microvm,acpi=on,pit=on,pic=off,rtc=on"@, forbidden_words()[4], 0);
        assert(lacks("microvm,acpi=on,pit=on,pic=off,rtc=on"@, 'h'));
        lemma_lacking_blocks("microvm,acpi=on,pit=on,pic=off,rtc=on"@, forbidden_words()[5], 0);
        assert(lacks("microvm,acpi=on,pit=on,pic=off,rtc=on"@, 'g'));
        lemma_lacking_blocks("microvm,acpi=on,pit=on,pic=off,rtc=on"@, forbidden_words()[6], 0);
        assert(lacks("microvm,acpi=on,pit=on,pic=off,rtc=on"@, 'b'));
        lemma_lacking_blocks("microvm,acpi=on,pit=on,pic=off,rtc=on"@, forbidden_words()[7], 0);
        assert(free_of_forbidden("microvm,acpi=on,pit=on,pic=off,rtc=on"@));
    }
    {
        reveal_strlit("q35");
        lemma_free_if_lacking("q35"@, seq![0, 0, 0, 0, 0, 0, 0, 0]);
        assert(free_of_forbidden("q35"@));
    }
    {
        reveal_strlit("whpx,kernel-irqchip=off");
        lemma_free_if_lacking("whpx,kernel-irqchip=off"@, seq![3, 0, 1, 0, 0, 2, 0, 0]);
        assert(free_of_forbidden("whpx,kernel-irqchip=off"@));
    }
    {
        reveal_strlit("tcg,thread=single");
        lemma_free_if_lacking("tcg,thread=single"@, seq![0, 0, 0, 0, 0, 1, 1, 0]);
        assert(free_of_forbidden("tcg,thread=single"@));
    }
}

/// The options one machine type adds.
proof fn lemma_machine_parts_free()
    ensures
        free_of_forbidden("-global"@),
        free_of_forbidden("virtio-mmio.force-legacy=false"@),
        free_of_forbidden("-vga"@),
        free_of_forbidden("none"@),
{
    reveal_strlit("-nographic");
    reveal_strlit("virtfs");
    reveal_strlit("fsdev");
    reveal_strlit("vfio");
    reveal_strlit("usb-host");
    reveal_strlit("hostfwd");
    reveal_strlit("guestfwd");
    reveal_strlit("bridge");
    {
        reveal_strlit("-global");
        lemma_free_if_lacking("-global"@, seq![1, 0, 0, 0, 0, 0, 1, 1]);
        assert(free_of_forbidden("-global"@));
    }
    {
        reveal_strlit("virtio-mmio.force-legacy=false");
        assert(lacks("virtio-mmio.force-legacy=false"@, 'n'));
        lemma_lacking_blocks("virtio-mmio.force-legacy=false"@, forbidden_words()[0], 1);
        assert forall|j: int| !occurs_at("virtio-mmio.force-legacy=false"@, forbidden_words()[1], j) by {
            if occurs_at("virtio-mmio.force-legacy=false"@, forbidden_words()[1], j) {
                assert("virtio-mmio.force-legacy=false"@.subrange(j, j + forbidden_words()[1].len())[0] == "virtio-mmio.force-legacy=false"@[j + 0]);
                assert("virtio-mmio.force-legacy=false"@.subrange(j, j + forbidden_words()[1].len())[4] == "virtio-mmio.force-legacy=false"@[j + 4]);
            }
        }
        assert(lacks("virtio-mmio.force-legacy=false"@, 'd'));
        lemma_lacking_blocks("virtio-mmio.force-legacy=false"@, forbidden_words()[2], 2);
        assert forall|j: int| !occurs_at("virtio-mmio.force-legacy=false"@, forbidden_words()[3], j) by {
            if occurs_at("virtio-mmio.force-legacy=false"@, forbidden_words()[3], j) {
                assert("virtio-mmio.force-legacy=false"@.subrange(j, j + forbidden_words()[3].len())[0] == "virtio-mmio.force-legacy=false"@[j + 0]);
                assert("virtio-mmio.force-legacy=false"@.subrange(j, j + forbidden_words()[3].len())[1] == "virtio-mmio.force-legacy=false"@[j + 1]);
            }
        }
        assert(lacks("virtio-mmio.force-legacy=false"@, 'u'));
        lemma_lacking_blocks("virtio-mmio.force-legacy=false"@, forbidden_words()[4], 0);
        assert(lacks("virtio-mmio.force-legacy=false"@, 'h'));
        lemma_lacking_blocks("virtio-mmio.force-legacy=false"@, forbidden_words()[5], 0);
        assert(lacks("virtio-mmio.force-legacy=false"@, 'u'));
        lemma_lacking_blocks("virtio-mmio.force-legacy=false"@, forbidden_words()[6], 1);
        assert(lacks("virtio-mmio.force-legacy=false"@, 'b'));
        lemma_lacking_blocks("virtio-mmio.force-legacy=false"@, forbidden_words()[7], 0);
        assert(free_of_forbidden("virtio-mmio.force-legacy=false"@));
    }
    {
        reveal_strlit("-vga");
        lemma_free_if_lacking("-vga"@, seq![1, 1, 0, 1, 0, 0, 1, 0]);
        assert(free_of_forbidden("-vga"@));
    }
    {
        reveal_strlit("none");
        lemma_free_if_lacking("none"@, seq![0, 0, 0, 0, 0, 0, 0, 0]);
        assert(free_of_forbidden("none"@));
    }
}

/// The fixed parts of the boot options.
proof fn lemma_boot_parts_free()
    ensures
        free_of_forbidden("-kernel"@),
        free_of_forbidden("-initrd"@),
        free_of_forbidden("-append"@),
        free_of_forbidden("-drive"@),
        free_of_forbidden("-device"@),
        free_of_forbidden("nvme,drive=root,serial=linuxlab-root"@),
        free_of_forbidden("id=root,file="@),
        free_of_forbidden(",format=qcow2,if=none,cache=writeback,discard=unmap,detect-zeroes=unmap"@),
        free_of_forbidden("virtio-blk-"@ + "device"@ + ",drive=root"@),
        free_of_forbidden("virtio-blk-"@ + "pci"@ + ",drive=root"@),
{
    reveal_strlit("-nographic");
    reveal_strlit("virtfs");
    reveal_strlit("fsdev");
    reveal_strlit("vfio");
    reveal_strlit("usb-host");
    reveal_strlit("hostfwd");
    reveal_strlit("guestfwd");
    reveal_strlit("bridge");
    {
        reveal_strlit("-kernel");
        lemma_free_if_lacking("-kernel"@, seq![2, 0, 0, 0, 0, 0, 0, 0]);
        assert(free_of_forbidden("-kernel"@));
    }
    {
        reveal_strlit("-initrd");
        lemma_free_if_lacking("-initrd"@, seq![2, 0, 0, 0, 0, 0, 0, 0]);
        assert(free_of_forbidden("-initrd"@));
    }
    {
        reveal_strlit("-append");
        lemma_free_if_lacking("-append"@, seq![2, 0, 0, 0, 0, 0, 0, 0]);
        assert(free_of_forbidden("-append"@));
    }
    {
        reveal_strlit("-drive");
        lemma_free_if_lacking("-drive"@, seq![1, 3, 0, 1, 0, 0, 0, 0]);
        assert(free_of_forbidden("-drive"@));
    }
    {
        reveal_strlit("-device");
        lemma_free_if_lacking("-device"@, seq![1, 2, 0, 1, 0, 0, 0, 0]);
        assert(free_of_forbidden("-device"@));
    }
    {
        reveal_strlit("nvme,drive=root,serial=linuxlab-root");
        lemma_free_if_lacking("nvme,drive=root,serial=linuxlab-root"@, seq![3, 4, 0, 1, 4, 0, 0, 4]);
        assert(free_of_forbidden("nvme,drive=root,serial=linuxlab-root"@));
    }
    {
        reveal_strlit("id=root,file=");
        lemma_free_if_lacking("id=root,file="@, seq![0, 0, 1, 0, 0, 0, 0, 0]);
        assert(free_of_forbidden("id=root,file="@));
    }
    {
        reveal_strlit(",format=qcow2,if=none,cache=writeback,discard=unmap,detect-zeroes=unmap");
        assert(lacks(",format=qcow2,if=none,cache=writeback,discard=unmap,detect-zeroes=unmap"@, 'g'));
        lemma_lacking_blocks(",format=qcow2,if=none,cache=writeback,discard=unmap,detect-zeroes=unmap"@, forbidden_words()[0], 3);
        assert(lacks(",format=qcow2,if=none,cache=writeback,discard=unmap,detect-zeroes=unmap"@, 'v'));
        lemma_lacking_blocks(",format=qcow2,if=none,cache=writeback,discard=unmap,detect-zeroes=unmap"@, forbidden_words()[1], 0);
        assert(lacks(",format=qcow2,if=none,cache=writeback,discard=unmap,detect-zeroes=unmap"@, 'v'));
        lemma_lacking_blocks(",format=qcow2,if=none,cache=writeback,discard=unmap,detect-zeroes=unmap"@, forbidden_words()[2], 4);
        assert(lacks(",format=qcow2,if=none,cache=writeback,discard=unmap,detect-zeroes=unmap"@, 'v'));
        lemma_lacking_blocks(",format=qcow2,if=none,cache=writeback,discard=unmap,detect-zeroes=unmap"@, forbidden_words()[3], 0);
        assert forall|j: int| !occurs_at(",format=qcow2,if=none,cache=writeback,discard=unmap,detect-zeroes=unmap"@, forbidden_words()[4], j) by {
            if occurs_at(",format=qcow2,if=none,cache=writeback,discard=unmap,detect-zeroes=unmap"@, forbidden_words()[4], j) {
                assert(",format=qcow2,if=none,cache=writeback,discard=unmap,detect-zeroes=unmap"@.subrange(j, j + forbidden_words()[4].len())[0] == ",format=qcow2,if=none,cache=writeback,discard=unmap,detect-zeroes=unmap"@[j + 0]);
                assert(",format=qcow2,if=none,cache=writeback,discard=unmap,detect-zeroes=unmap"@.subrange(j, j + forbidden_words()[4].len())[1] == ",format=qcow2,if=none,cache=writeback,discard=unmap,detect-zeroes=unmap"@[j + 1]);
            }
        }
        assert forall|j: int| !occurs_at(",format=qcow2,if=none,cache=writeback,discard=unmap,detect-zeroes=unmap"@, forbidden_words()[5], j) by {
            if occurs_at(",format=qcow2,if=none,cache=writeback,discard=unmap,detect-zeroes=unmap"@, forbidden_words()[5], j) {
                assert(",format=qcow2,if=none,cache=writeback,discard=unmap,detect-zeroes=unmap"@.subrange(j, j + forbidden_words()[5].len())[0] == ",format=qcow2,if=none,cache=writeback,discard=unmap,detect-zeroes=unmap"@[j + 0]);
                assert(",format=qcow2,if=none,cache=writeback,discard=unmap,detect-zeroes=unmap"@.subrange(j, j + forbidden_words()[5].len())[1] == ",format=qcow2,if=none,cache=writeback,discard=unmap,detect-zeroes=unmap"@[j + 1]);
            }
        }
        assert(lacks(",format=qcow2,if=none,cache=writeback,discard=unmap,detect-zeroes=unmap"@, 'g'));
        lemma_lacking_blocks(",format=qcow2,if=none,cache=writeback,discard=unmap,detect-zeroes=unmap"@, forbidden_words()[6], 0);
        assert(lacks(",format=qcow2,if=none,cache=writeback,discard=unmap,detect-zeroes=unmap"@, 'g'));
        lemma_lacking_blocks(",format=qcow2,if=none,cache=writeback,discard=unmap,detect-zeroes=unmap"@, forbidden_words()[7], 4);
        assert(free_of_forbidden(",format=qcow2,if=none,cache=writeback,discard=unmap,detect-zeroes=unmap"@));
    }
    {
        reveal_strlit("virtio-blk-");
        reveal_strlit("device");
        reveal_strlit(",drive=root");
        assert(lacks("virtio-blk-"@ + "device"@ + ",drive=root"@, 'n'));
        lemma_lacking_blocks("virtio-blk-"@ + "device"@ + ",drive=root"@, forbidden_words()[0], 1);
        assert(lacks("virtio-blk-"@ + "device"@ + ",drive=root"@, 'f'));
        lemma_lacking_blocks("virtio-blk-"@ + "device"@ + ",drive=root"@, forbidden_words()[1], 4);
        assert(lacks("virtio-blk-"@ + "device"@ + ",drive=root"@, 'f'));
        lemma_lacking_blocks("virtio-blk-"@ + "device"@ + ",drive=root"@, forbidden_words()[2], 0);
        assert(lacks("virtio-blk-"@ + "device"@ + ",drive=root"@, 'f'));
        lemma_lacking_blocks("virtio-blk-"@ + "device"@ + ",drive=root"@, forbidden_words()[3], 1);
        assert(lacks("virtio-blk-"@ + "device"@ + ",drive=root"@, 'u'));
        lemma_lacking_blocks("virtio-blk-"@ + "device"@ + ",drive=root"@, forbidden_words()[4], 0);
        assert(lacks("virtio-blk-"@ + "device"@ + ",drive=root"@, 'h'));
        lemma_lacking_blocks("virtio-blk-"@ + "device"@ + ",drive=root"@, forbidden_words()[5], 0);
        assert(lacks("virtio-blk-"@ + "device"@ + ",drive=root"@, 'g'));
        lemma_lacking_blocks("virtio-blk-"@ + "device"@ + ",drive=root"@, forbidden_words()[6], 0);
        assert(lacks("virtio-blk-"@ + "device"@ + ",drive=root"@, 'g'));
        lemma_lacking_blocks("virtio-blk-"@ + "device"@ + ",drive=root"@, forbidden_words()[7], 4);
        assert(free_of_forbidden("virtio-blk-"@ + "device"@ + ",drive=root"@));
    }
    {
        reveal_strlit("virtio-blk-");
        reveal_strlit("pci");
        reveal_strlit(",drive=root");
        assert(lacks("virtio-blk-"@ + "pci"@ + ",drive=root"@, 'n'));
        lemma_lacking_blocks("virtio-blk-"@ + "pci"@ + ",drive=root"@, forbidden_words()[0], 1);
        assert(lacks("virtio-blk-"@ + "pci"@ + ",drive=root"@, 'f'));
        lemma_lacking_blocks("virtio-blk-"@ + "pci"@ + ",drive=root"@, forbidden_words()[1], 4);
        assert(lacks("virtio-blk-"@ + "pci"@ + ",drive=root"@, 'f'));
        lemma_lacking_blocks("virtio-blk-"@ + "pci"@ + ",drive=root"@, forbidden_words()[2], 0);
        assert(lacks("virtio-blk-"@ + "pci"@ + ",drive=root"@, 'f'));
        lemma_lacking_blocks("virtio-blk-"@ + "pci"@ + ",drive=root"@, forbidden_words()[3], 1);
        assert(lacks("virtio-blk-"@ + "pci"@ + ",drive=root"@, 'u'));
        lemma_lacking_blocks("virtio-blk-"@ + "pci"@ + ",drive=root"@, forbidden_words()[4], 0);
        assert(lacks("virtio-blk-"@ + "pci"@ + ",drive=root"@, 'h'));
        lemma_lacking_blocks("virtio-blk-"@ + "pci"@ + ",drive=root"@, forbidden_words()[5], 0);
        assert(lacks("virtio-blk-"@ + "pci"@ + ",drive=root"@, 'g'));
        lemma_lacking_blocks("virtio-blk-"@ + "pci"@ + ",drive=root"@, forbidden_words()[6], 0);
        assert(lacks("virtio-blk-"@ + "pci"@ + ",drive=root"@, 'g'));
        lemma_lacking_blocks("virtio-blk-"@ + "pci"@ + ",drive=root"@, forbidden_words()[7], 4);
        assert(free_of_forbidden("virtio-blk-"@ + "pci"@ + ",drive=root"@));
    }
}

/// The fixed parts of the console, agent and QMP channels.
proof fn lemma_channel_parts_free()
    ensures
        free_of_forbidden("-chardev"@),
        free_of_forbidden("-serial"@),
        free_of_forbidden("chardev:console"@),
        free_of_forbidden("-device"@),
        free_of_forbidden("-qmp"@),
        free_of_forbidden("socket,id=console,host=127.0.0.1,port="@),
        free_of_forbidden(",server=on,wait=off,telnet=off"@),
        free_of_forbidden("socket,id=agent,host=127.0.0.1,port="@),
        free_of_forbidden(",server=on,wait=off"@),
        free_of_forbidden("tcp:127.0.0.1:"@),
        free_of_forbidden("virtio-serial-"@ + "device"@ + ",id=vser0"@),
        free_of_forbidden("virtio-serial-"@ + "pci"@ + ",id=vser0"@),
        free_of_forbidden("virtserialport,bus=vser0.0,chardev=agent,name="@ + "org.linuxlab.agent"@),
{
    reveal_strlit("-nographic");
    reveal_strlit("virtfs");
    reveal_strlit("fsdev");
    reveal_strlit("vfio");
    reveal_strlit("usb-host");
    reveal_strlit("hostfwd");
    reveal_strlit("guestfwd");
    reveal_strlit("bridge");
    {
        reveal_strlit("-chardev");
        lemma_free_if_lacking("-chardev"@, seq![1, 1, 0, 1, 0, 1, 0, 0]);
        assert(free_of_forbidden("-chardev"@));
    }
    {
        reveal_strlit("-serial");
        lemma_free_if_lacking("-serial"@, seq![1, 0, 0, 0, 0, 0, 0, 0]);
        assert(free_of_forbidden("-serial"@));
    }
    {
        reveal_strlit("chardev:console");
        lemma_free_if_lacking("chardev:console"@, seq![0, 1, 0, 1, 0, 3, 0, 0]);
        assert(free_of_forbidden("chardev:console"@));
    }
    {
        reveal_strlit("-device");
        lemma_free_if_lacking("-device"@, seq![1, 2, 0, 1, 0, 0, 0, 0]);
        assert(free_of_forbidden("-device"@));
    }
    {
        reveal_strlit("-qmp");
        lemma_free_if_lacking("-qmp"@, seq![1, 0, 0, 0, 0, 0, 0, 0]);
        assert(free_of_forbidden("-qmp"@));
    }
    {
        reveal_strlit("socket,id=console,host=127.0.0.1,port=");
        lemma_free_if_lacking("socket,id=console,host=127.0.0.1,port="@, seq![0, 0, 0, 0, 0, 4, 0, 0]);
        assert(free_of_forbidden("socket,id=console,host=127.0.0.1,port="@));
    }
    {
        reveal_strlit(",server=on,wait=off,telnet=off");
        assert(lacks(",server=on,wait=off,telnet=off"@, '-'));
        lemma_lacking_blocks(",server=on,wait=off,telnet=off"@, forbidden_words()[0], 0);
        assert forall|j: int| !occurs_at(",server=on,wait=off,telnet=off"@, forbidden_words()[1], j) by {
            if occurs_at(",server=on,wait=off,telnet=off"@, forbidden_words()[1], j) {
                assert(",server=on,wait=off,telnet=off"@.subrange(j, j + forbidden_words()[1].len())[0] == ",server=on,wait=off,telnet=off"@[j + 0]);
                assert(",server=on,wait=off,telnet=off"@.subrange(j, j + forbidden_words()[1].len())[1] == ",server=on,wait=off,telnet=off"@[j + 1]);
            }
        }
        assert(lacks(",server=on,wait=off,telnet=off"@, 'd'));
        lemma_lacking_blocks(",server=on,wait=off,telnet=off"@, forbidden_words()[2], 2);
        assert forall|j: int| !occurs_at(",server=on,wait=off,telnet=off"@, forbidden_words()[3], j) by {
            if occurs_at(",server=on,wait=off,telnet=off"@, forbidden_words()[3], j) {
                assert(",server=on,wait=off,telnet=off"@.subrange(j, j + forbidden_words()[3].len())[0] == ",server=on,wait=off,telnet=off"@[j + 0]);
                assert(",server=on,wait=off,telnet=off"@.subrange(j, j + forbidden_words()[3].len())[1] == ",server=on,wait=off,telnet=off"@[j + 1]);
            }
        }
        assert(lacks(",server=on,wait=off,telnet=off"@, 'u'));
        lemma_lacking_blocks(",server=on,wait=off,telnet=off"@, forbidden_words()[4], 0);
        assert(lacks(",server=on,wait=off,telnet=off"@, 'h'));
        lemma_lacking_blocks(",server=on,wait=off,telnet=off"@, forbidden_words()[5], 0);
        assert(lacks(",server=on,wait=off,telnet=off"@, 'g'));
        lemma_lacking_blocks(",server=on,wait=off,telnet=off"@, forbidden_words()[6], 0);
        assert(lacks(",server=on,wait=off,telnet=off"@, 'b'));
        lemma_lacking_blocks(",server=on,wait=off,telnet=off"@, forbidden_words()[7], 0);
        assert(free_of_forbidden(",server=on,wait=off,telnet=off"@));
    }
    {
        reveal_strlit("socket,id=agent,host=127.0.0.1,port=");
        lemma_free_if_lacking("socket,id=agent,host=127.0.0.1,port="@, seq![0, 0, 0, 0, 0, 4, 1, 0]);
        assert(free_of_forbidden("socket,id=agent,host=127.0.0.1,port="@));
    }
    {
        reveal_strlit(",server=on,wait=off");
        assert(lacks(",server=on,wait=off"@, '-'));
        lemma_lacking_blocks(",server=on,wait=off"@, forbidden_words()[0], 0);
        assert forall|j: int| !occurs_at(",server=on,wait=off"@, forbidden_words()[1], j) by {
            if occurs_at(",server=on,wait=off"@, forbidden_words()[1], j) {
                assert(",server=on,wait=off"@.subrange(j, j + forbidden_words()[1].len())[0] == ",server=on,wait=off"@[j + 0]);
                assert(",server=on,wait=off"@.subrange(j, j + forbidden_words()[1].len())[1] == ",server=on,wait=off"@[j + 1]);
            }
        }
        assert(lacks(",server=on,wait=off"@, 'd'));
        lemma_lacking_blocks(",server=on,wait=off"@, forbidden_words()[2], 2);
        assert forall|j: int| !occurs_at(",server=on,wait=off"@, forbidden_words()[3], j) by {
            if occurs_at(",server=on,wait=off"@, forbidden_words()[3], j) {
                assert(",server=on,wait=off"@.subrange(j, j + forbidden_words()[3].len())[0] == ",server=on,wait=off"@[j + 0]);
                assert(",server=on,wait=off"@.subrange(j, j + forbidden_words()[3].len())[1] == ",server=on,wait=off"@[j + 1]);
            }
        }
        assert(lacks(",server=on,wait=off"@, 'u'));
        lemma_lacking_blocks(",server=on,wait=off"@, forbidden_words()[4], 0);
        assert(lacks(",server=on,wait=off"@, 'h'));
        lemma_lacking_blocks(",server=on,wait=off"@, forbidden_words()[5], 0);
        assert(lacks(",server=on,wait=off"@, 'g'));
        lemma_lacking_blocks(",server=on,wait=off"@, forbidden_words()[6], 0);
        assert(lacks(",server=on,wait=off"@, 'b'));
        lemma_lacking_blocks(",server=on,wait=off"@, forbidden_words()[7], 0);
        assert(free_of_forbidden(",server=on,wait=off"@));
    }
    {
        reveal_strlit("tcp:127.0.0.1:");
        lemma_free_if_lacking("tcp:127.0.0.1:"@, seq![0, 0, 0, 0, 0, 0, 0, 0]);
        assert(free_of_forbidden("tcp:127.0.0.1:"@));
    }
    {
        reveal_strlit("virtio-serial-");
        reveal_strlit("device");
        reveal_strlit(",id=vser0");
        assert(lacks("virtio-serial-"@ + "device"@ + ",id=vser0"@, 'n'));
        lemma_lacking_blocks("virtio-serial-"@ + "device"@ + ",id=vser0"@, forbidden_words()[0], 1);
        assert(lacks("virtio-serial-"@ + "device"@ + ",id=vser0"@, 'f'));
        lemma_lacking_blocks("virtio-serial-"@ + "device"@ + ",id=vser0"@, forbidden_words()[1], 4);
        assert(lacks("virtio-serial-"@ + "device"@ + ",id=vser0"@, 'f'));
        lemma_lacking_blocks("virtio-serial-"@ + "device"@ + ",id=vser0"@, forbidden_words()[2], 0);
        assert(lacks("virtio-serial-"@ + "device"@ + ",id=vser0"@, 'f'));
        lemma_lacking_blocks("virtio-serial-"@ + "device"@ + ",id=vser0"@, forbidden_words()[3], 1);
        assert(lacks("virtio-serial-"@ + "device"@ + ",id=vser0"@, 'u'));
        lemma_lacking_blocks("virtio-serial-"@ + "device"@ + ",id=vser0"@, forbidden_words()[4], 0);
        assert(lacks("virtio-serial-"@ + "device"@ + ",id=vser0"@, 'h'));
        lemma_lacking_blocks("virtio-serial-"@ + "device"@ + ",id=vser0"@, forbidden_words()[5], 0);
        assert(lacks("virtio-serial-"@ + "device"@ + ",id=vser0"@, 'g'));
        lemma_lacking_blocks("virtio-serial-"@ + "device"@ + ",id=vser0"@, forbidden_words()[6], 0);
        assert(lacks("virtio-serial-"@ + "device"@ + ",id=vser0"@, 'b'));
        lemma_lacking_blocks("virtio-serial-"@ + "device"@ + ",id=vser0"@, forbidden_words()[7], 0);
        assert(free_of_forbidden("virtio-serial-"@ + "device"@ + ",id=vser0"@));
    }
    {
        reveal_strlit("virtio-serial-");
        reveal_strlit("pci");
        reveal_strlit(",id=vser0");
        assert(lacks("virtio-serial-"@ + "pci"@ + ",id=vser0"@, 'n'));
        lemma_lacking_blocks("virtio-serial-"@ + "pci"@ + ",id=vser0"@, forbidden_words()[0], 1);
        assert(lacks("virtio-serial-"@ + "pci"@ + ",id=vser0"@, 'f'));
        lemma_lacking_blocks("virtio-serial-"@ + "pci"@ + ",id=vser0"@, forbidden_words()[1], 4);
        assert(lacks("virtio-serial-"@ + "pci"@ + ",id=vser0"@, 'f'));
        lemma_lacking_blocks("virtio-serial-"@ + "pci"@ + ",id=vser0"@, forbidden_words()[2], 0);
        assert(lacks("virtio-serial-"@ + "pci"@ + ",id=vser0"@, 'f'));
        lemma_lacking_blocks("virtio-serial-"@ + "pci"@ + ",id=vser0"@, forbidden_words()[3], 1);
        assert(lacks("virtio-serial-"@ + "pci"@ + ",id=vser0"@, 'u'));
        lemma_lacking_blocks("virtio-serial-"@ + "pci"@ + ",id=vser0"@, forbidden_words()[4], 0);
        assert(lacks("virtio-serial-"@ + "pci"@ + ",id=vser0"@, 'h'));
        lemma_lacking_blocks("virtio-serial-"@ + "pci"@ + ",id=vser0"@, forbidden_words()[5], 0);
        assert(lacks("virtio-serial-"@ + "pci"@ + ",id=vser0"@, 'g'));
        lemma_lacking_blocks("virtio-serial-"@ + "pci"@ + ",id=vser0"@, forbidden_words()[6], 0);
        assert(lacks("virtio-serial-"@ + "pci"@ + ",id=vser0"@, 'b'));
        lemma_lacking_blocks("virtio-serial-"@ + "pci"@ + ",id=vser0"@, forbidden_words()[7], 0);
        assert(free_of_forbidden("virtio-serial-"@ + "pci"@ + ",id=vser0"@));
    }
    {
        reveal_strlit("virtserialport,bus=vser0.0,chardev=agent,name=");
        reveal_strlit("org.linuxlab.agent");
        assert(lacks("virtserialport,bus=vser0.0,chardev=agent,name="@ + "org.linuxlab.agent"@, '-'));
        lemma_lacking_blocks("virtserialport,bus=vser0.0,chardev=agent,name="@ + "org.linuxlab.agent"@, forbidden_words()[0], 0);
        assert(lacks("virtserialport,bus=vser0.0,chardev=agent,name="@ + "org.linuxlab.agent"@, 'f'));
        lemma_lacking_blocks("virtserialport,bus=vser0.0,chardev=agent,name="@ + "org.linuxlab.agent"@, forbidden_words()[1], 4);
        assert(lacks("virtserialport,bus=vser0.0,chardev=agent,name="@ + "org.linuxlab.agent"@, 'f'));
        lemma_lacking_blocks("virtserialport,bus=vser0.0,chardev=agent,name="@ + "org.linuxlab.agent"@, forbidden_words()[2], 0);
        assert(lacks("virtserialport,bus=vser0.0,chardev=agent,name="@ + "org.linuxlab.agent"@, 'f'));
        lemma_lacking_blocks("virtserialport,bus=vser0.0,chardev=agent,name="@ + "org.linuxlab.agent"@, forbidden_words()[3], 1);
        assert(lacks("virtserialport,bus=vser0.0,chardev=agent,name="@ + "org.linuxlab.agent"@, '-'));
        lemma_lacking_blocks("virtserialport,bus=vser0.0,chardev=agent,name="@ + "org.linuxlab.agent"@, forbidden_words()[4], 3);
        assert(lacks("virtserialport,bus=vser0.0,chardev=agent,name="@ + "org.linuxlab.agent"@, 'f'));
        lemma_lacking_blocks("virtserialport,bus=vser0.0,chardev=agent,name="@ + "org.linuxlab.agent"@, forbidden_words()[5], 4);
        assert(lacks("virtserialport,bus=vser0.0,chardev=agent,name="@ + "org.linuxlab.agent"@, 'f'));
        lemma_lacking_blocks("virtserialport,bus=vser0.0,chardev=agent,name="@ + "org.linuxlab.agent"@, forbidden_words()[6], 5);
        assert forall|j: int| !occurs_at(("virtserialport,bus=vser0.0,chardev=agent,name="@ + "org.linuxlab.agent"@), forbidden_words()[7], j) by {
            if occurs_at(("virtserialport,bus=vser0.0,chardev=agent,name="@ + "org.linuxlab.agent"@), forbidden_words()[7], j) {
                assert(("virtserialport,bus=vser0.0,chardev=agent,name="@ + "org.linuxlab.agent"@).subrange(j, j + forbidden_words()[7].len())[0] == ("virtserialport,bus=vser0.0,chardev=agent,name="@ + "org.linuxlab.agent"@)[j + 0]);
                assert(("virtserialport,bus=vser0.0,chardev=agent,name="@ + "org.linuxlab.agent"@).subrange(j, j + forbidden_words()[7].len())[1] == ("virtserialport,bus=vser0.0,chardev=agent,name="@ + "org.linuxlab.agent"@)[j + 1]);
            }
        }
        assert(free_of_forbidden("virtserialport,bus=vser0.0,chardev=agent,name="@ + "org.linuxlab.agent"@));
    }
}

/// The fixed network options and the log option.
proof fn lemma_network_parts_free()
    ensures
        free_of_forbidden("-netdev"@),
        free_of_forbidden("user,id=net0,ipv6=off,restrict=off"@),
        free_of_forbidden("-nic"@),
        free_of_forbidden("none"@),
        free_of_forbidden("-D"@),
        free_of_forbidden("virtio-net-"@ + "device"@ + ",netdev=net0"@),
        free_of_forbidden("virtio-net-"@ + "pci"@ + ",netdev=net0"@),
{
    reveal_strlit("-nographic");
    reveal_strlit("virtfs");
    reveal_strlit("fsdev");
    reveal_strlit("vfio");
    reveal_strlit("usb-host");
    reveal_strlit("hostfwd");
    reveal_strlit("guestfwd");
    reveal_strlit("bridge");
    {
        reveal_strlit("-netdev");
        lemma_free_if_lacking("-netdev"@, seq![2, 1, 0, 1, 0, 0, 0, 0]);
        assert(free_of_forbidden("-netdev"@));
    }
    {
        reveal_strlit("user,id=net0,ipv6=off,restrict=off");
        assert(lacks("user,id=net0,ipv6=off,restrict=off"@, '-'));
        lemma_lacking_blocks("user,id=net0,ipv6=off,restrict=off"@, forbidden_words()[0], 0);
        assert forall|j: int| !occurs_at("user,id=net0,ipv6=off,restrict=off"@, forbidden_words()[1], j) by {
            if occurs_at("user,id=net0,ipv6=off,restrict=off"@, forbidden_words()[1], j) {
                assert("user,id=net0,ipv6=off,restrict=off"@.subrange(j, j + forbidden_words()[1].len())[0] == "user,id=net0,ipv6=off,restrict=off"@[j + 0]);
                assert("user,id=net0,ipv6=off,restrict=off"@.subrange(j, j + forbidden_words()[1].len())[1] == "user,id=net0,ipv6=off,restrict=off"@[j + 1]);
            }
        }
        assert forall|j: int| !occurs_at("user,id=net0,ipv6=off,restrict=off"@, forbidden_words()[2], j) by {
            if occurs_at("user,id=net0,ipv6=off,restrict=off"@, forbidden_words()[2], j) {
                assert("user,id=net0,ipv6=off,restrict=off"@.subrange(j, j + forbidden_words()[2].len())[0] == "user,id=net0,ipv6=off,restrict=off"@[j + 0]);
                assert("user,id=net0,ipv6=off,restrict=off"@.subrange(j, j + forbidden_words()[2].len())[1] == "user,id=net0,ipv6=off,restrict=off"@[j + 1]);
            }
        }
        assert forall|j: int| !occurs_at("user,id=net0,ipv6=off,restrict=off"@, forbidden_words()[3], j) by {
            if occurs_at("user,id=net0,ipv6=off,restrict=off"@, forbidden_words()[3], j) {
                assert("user,id=net0,ipv6=off,restrict=off"@.subrange(j, j + forbidden_words()[3].len())[0] == "user,id=net0,ipv6=off,restrict=off"@[j + 0]);
                assert("user,id=net0,ipv6=off,restrict=off"@.subrange(j, j + forbidden_words()[3].len())[1] == "user,id=net0,ipv6=off,restrict=off"@[j + 1]);
            }
        }
        assert(lacks("user,id=net0,ipv6=off,restrict=off"@, 'b'));
        lemma_lacking_blocks("user,id=net0,ipv6=off,restrict=off"@, forbidden_words()[4], 2);
        assert(lacks("user,id=net0,ipv6=off,restrict=off"@, 'h'));
        lemma_lacking_blocks("user,id=net0,ipv6=off,restrict=off"@, forbidden_words()[5], 0);
        assert(lacks("user,id=net0,ipv6=off,restrict=off"@, 'g'));
        lemma_lacking_blocks("user,id=net0,ipv6=off,restrict=off"@, forbidden_words()[6], 0);
        assert(lacks("user,id=net0,ipv6=off,restrict=off"@, 'b'));
        lemma_lacking_blocks("user,id=net0,ipv6=off,restrict=off"@, forbidden_words()[7], 0);
        assert(free_of_forbidden("user,id=net0,ipv6=off,restrict=off"@));
    }
    {
        reveal_strlit("-nic");
        lemma_free_if_lacking("-nic"@, seq![2, 0, 0, 0, 0, 0, 0, 0]);
        assert(free_of_forbidden("-nic"@));
    }
    {
        reveal_strlit("none");
        lemma_free_if_lacking("none"@, seq![0, 0, 0, 0, 0, 0, 0, 0]);
        assert(free_of_forbidden("none"@));
    }
    {
        reveal_strlit("-D");
        lemma_free_if_lacking("-D"@, seq![1, 0, 0, 0, 0, 0, 0, 0]);
        assert(free_of_forbidden("-D"@));
    }
    {
        reveal_strlit("virtio-net-");
        reveal_strlit("device");
        reveal_strlit(",netdev=net0");
        assert(lacks("virtio-net-"@ + "device"@ + ",netdev=net0"@, 'g'));
        lemma_lacking_blocks("virtio-net-"@ + "device"@ + ",netdev=net0"@, forbidden_words()[0], 3);
        assert(lacks("virtio-net-"@ + "device"@ + ",netdev=net0"@, 'f'));
        lemma_lacking_blocks("virtio-net-"@ + "device"@ + ",netdev=net0"@, forbidden_words()[1], 4);
        assert(lacks("virtio-net-"@ + "device"@ + ",netdev=net0"@, 'f'));
        lemma_lacking_blocks("virtio-net-"@ + "device"@ + ",netdev=net0"@, forbidden_words()[2], 0);
        assert(lacks("virtio-net-"@ + "device"@ + ",netdev=net0"@, 'f'));
        lemma_lacking_blocks("virtio-net-"@ + "device"@ + ",netdev=net0"@, forbidden_words()[3], 1);
        assert(lacks("virtio-net-"@ + "device"@ + ",netdev=net0"@, 'u'));
        lemma_lacking_blocks("virtio-net-"@ + "device"@ + ",netdev=net0"@, forbidden_words()[4], 0);
        assert(lacks("virtio-net-"@ + "device"@ + ",netdev=net0"@, 'h'));
        lemma_lacking_blocks("virtio-net-"@ + "device"@ + ",netdev=net0"@, forbidden_words()[5], 0);
        assert(lacks("virtio-net-"@ + "device"@ + ",netdev=net0"@, 'g'));
        lemma_lacking_blocks("virtio-net-"@ + "device"@ + ",netdev=net0"@, forbidden_words()[6], 0);
        assert(lacks("virtio-net-"@ + "device"@ + ",netdev=net0"@, 'b'));
        lemma_lacking_blocks("virtio-net-"@ + "device"@ + ",netdev=net0"@, forbidden_words()[7], 0);
        assert(free_of_forbidden("virtio-net-"@ + "device"@ + ",netdev=net0"@));
    }
    {
        reveal_strlit("virtio-net-");
        reveal_strlit("pci");
        reveal_strlit(",netdev=net0");
        assert(lacks("virtio-net-"@ + "pci"@ + ",netdev=net0"@, 'g'));
        lemma_lacking_blocks("virtio-net-"@ + "pci"@ + ",netdev=net0"@, forbidden_words()[0], 3);
        assert(lacks("virtio-net-"@ + "pci"@ + ",netdev=net0"@, 'f'));
        lemma_lacking_blocks("virtio-net-"@ + "pci"@ + ",netdev=net0"@, forbidden_words()[1], 4);
        assert(lacks("virtio-net-"@ + "pci"@ + ",netdev=net0"@, 'f'));
        lemma_lacking_blocks("virtio-net-"@ + "pci"@ + ",netdev=net0"@, forbidden_words()[2], 0);
        assert(lacks("virtio-net-"@ + "pci"@ + ",netdev=net0"@, 'f'));
        lemma_lacking_blocks("virtio-net-"@ + "pci"@ + ",netdev=net0"@, forbidden_words()[3], 1);
        assert(lacks("virtio-net-"@ + "pci"@ + ",netdev=net0"@, 'u'));
        lemma_lacking_blocks("virtio-net-"@ + "pci"@ + ",netdev=net0"@, forbidden_words()[4], 0);
        assert(lacks("virtio-net-"@ + "pci"@ + ",netdev=net0"@, 'h'));
        lemma_lacking_blocks("virtio-net-"@ + "pci"@ + ",netdev=net0"@, forbidden_words()[5], 0);
        assert(lacks("virtio-net-"@ + "pci"@ + ",netdev=net0"@, 'g'));
        lemma_lacking_blocks("virtio-net-"@ + "pci"@ + ",netdev=net0"@, forbidden_words()[6], 0);
        assert(lacks("virtio-net-"@ + "pci"@ + ",netdev=net0"@, 'b'));
        lemma_lacking_blocks("virtio-net-"@ + "pci"@ + ",netdev=net0"@, forbidden_words()[7], 0);
        assert(free_of_forbidden("virtio-net-"@ + "pci"@ + ",netdev=net0"@));
    }
}

/// The fixed words of the kernel command line.
proof fn lemma_cmdline_parts_free()
    ensures
        free_of_forbidden("console=ttyS0,115200"@),
        free_of_forbidden("root=/dev/vda"@),
        free_of_forbidden("root=/dev/nvme0n1"@),
        free_of_forbidden("rootwait"@),
        free_of_forbidden("rw"@),
        free_of_forbidden("rootfstype=ext4"@),
        free_of_forbidden("init=/lib/systemd/systemd"@),
        free_of_forbidden("systemd.show_status=0"@),
        free_of_forbidden("loglevel=3"@),
        free_of_forbidden("quiet"@),
        free_of_forbidden("random.trust_cpu=on"@),
        free_of_forbidden("reboot=t"@),
        free_of_forbidden("panic=-1"@),
        free_of_forbidden("linuxlab.token="@),
        free_of_forbidden("linuxlab.network="@ + "offline"@),
        free_of_forbidden("linuxlab.network="@ + "internal-lab"@),
        free_of_forbidden("linuxlab.network="@ + "restricted-internet"@),
{
    reveal_strlit("-nographic");
    reveal_strlit("virtfs");
    reveal_strlit("fsdev");
    reveal_strlit("vfio");
    reveal_strlit("usb-host");
    reveal_strlit("hostfwd");
    reveal_strlit("guestfwd");
    reveal_strlit("bridge");
    {
        reveal_strlit("console=ttyS0,115200");
        lemma_free_if_lacking("console=ttyS0,115200"@, seq![0, 0, 0, 0, 0, 0, 0, 0]);
        assert(free_of_forbidden("console=ttyS0,115200"@));
    }
    {
        reveal_strlit("root=/dev/vda");
        lemma_free_if_lacking("root=/dev/vda"@, seq![0, 1, 0, 1, 0, 0, 0, 0]);
        assert(free_of_forbidden("root=/dev/vda"@));
    }
    {
        reveal_strlit("root=/dev/nvme0n1");
        lemma_free_if_lacking("root=/dev/nvme0n1"@, seq![0, 1, 0, 1, 0, 0, 0, 0]);
        assert(free_of_forbidden("root=/dev/nvme0n1"@));
    }
    {
        reveal_strlit("rootwait");
        lemma_free_if_lacking("rootwait"@, seq![0, 0, 0, 0, 0, 0, 0, 0]);
        assert(free_of_forbidden("rootwait"@));
    }
    {
        reveal_strlit("rw");
        lemma_free_if_lacking("rw"@, seq![0, 0, 0, 0, 0, 0, 0, 0]);
        assert(free_of_forbidden("rw"@));
    }
    {
        reveal_strlit("rootfstype=ext4");
        lemma_free_if_lacking("rootfstype=ext4"@, seq![0, 0, 2, 0, 0, 0, 0, 0]);
        assert(free_of_forbidden("rootfstype=ext4"@));
    }
    {
        reveal_strlit("init=/lib/systemd/systemd");
        lemma_free_if_lacking("init=/lib/systemd/systemd"@, seq![0, 0, 0, 0, 0, 0, 0, 1]);
        assert(free_of_forbidden("init=/lib/systemd/systemd"@));
    }
    {
        reveal_strlit("systemd.show_status=0");
        lemma_free_if_lacking("systemd.show_status=0"@, seq![0, 0, 0, 0, 2, 4, 0, 0]);
        assert(free_of_forbidden("systemd.show_status=0"@));
    }
    {
        reveal_strlit("loglevel=3");
        lemma_free_if_lacking("loglevel=3"@, seq![0, 1, 0, 1, 0, 0, 1, 0]);
        assert(free_of_forbidden("loglevel=3"@));
    }
    {
        reveal_strlit("quiet");
        lemma_free_if_lacking("quiet"@, seq![0, 0, 0, 0, 1, 0, 0, 0]);
        assert(free_of_forbidden("quiet"@));
    }
    {
        reveal_strlit("random.trust_cpu=on");
        lemma_free_if_lacking("random.trust_cpu=on"@, seq![0, 0, 0, 0, 2, 0, 0, 0]);
        assert(free_of_forbidden("random.trust_cpu=on"@));
    }
    {
        reveal_strlit("reboot=t");
        lemma_free_if_lacking("reboot=t"@, seq![0, 0, 0, 0, 0, 0, 0, 2]);
        assert(free_of_forbidden("reboot=t"@));
    }
    {
        reveal_strlit("panic=-1");
        lemma_free_if_lacking("panic=-1"@, seq![2, 0, 0, 0, 0, 0, 0, 0]);
        assert(free_of_forbidden("panic=-1"@));
    }
    {
        reveal_strlit("linuxlab.token=");
        lemma_free_if_lacking("linuxlab.token="@, seq![0, 0, 0, 0, 1, 0, 0, 1]);
        assert(free_of_forbidden("linuxlab.token="@));
    }
    {
        reveal_strlit("linuxlab.network=");
        reveal_strlit("offline");
        assert(lacks("linuxlab.network="@ + "offline"@, '-'));
        lemma_lacking_blocks("linuxlab.network="@ + "offline"@, forbidden_words()[0], 0);
        assert(lacks("linuxlab.network="@ + "offline"@, 'v'));
        lemma_lacking_blocks("linuxlab.network="@ + "offline"@, forbidden_words()[1], 0);
        assert(lacks("linuxlab.network="@ + "offline"@, 's'));
        lemma_lacking_blocks("linuxlab.network="@ + "offline"@, forbidden_words()[2], 1);
        assert(lacks("linuxlab.network="@ + "offline"@, 'v'));
        lemma_lacking_blocks("linuxlab.network="@ + "offline"@, forbidden_words()[3], 0);
        assert(lacks("linuxlab.network="@ + "offline"@, 's'));
        lemma_lacking_blocks("linuxlab.network="@ + "offline"@, forbidden_words()[4], 1);
        assert(lacks("linuxlab.network="@ + "offline"@, 'h'));
        lemma_lacking_blocks("linuxlab.network="@ + "offline"@, forbidden_words()[5], 0);
        assert(lacks("linuxlab.network="@ + "offline"@, 'g'));
        lemma_lacking_blocks("linuxlab.network="@ + "offline"@, forbidden_words()[6], 0);
        assert(lacks("linuxlab.network="@ + "offline"@, 'd'));
        lemma_lacking_blocks("linuxlab.network="@ + "offline"@, forbidden_words()[7], 3);
        assert(free_of_forbidden("linuxlab.network="@ + "offline"@));
    }
    {
        reveal_strlit("linuxlab.network=");
        reveal_strlit("internal-lab");
        assert(lacks("linuxlab.network="@ + "internal-lab"@, 'g'));
        lemma_lacking_blocks("linuxlab.network="@ + "internal-lab"@, forbidden_words()[0], 3);
        assert(lacks("linuxlab.network="@ + "internal-lab"@, 'v'));
        lemma_lacking_blocks("linuxlab.network="@ + "internal-lab"@, forbidden_words()[1], 0);
        assert(lacks("linuxlab.network="@ + "internal-lab"@, 'f'));
        lemma_lacking_blocks("linuxlab.network="@ + "internal-lab"@, forbidden_words()[2], 0);
        assert(lacks("linuxlab.network="@ + "internal-lab"@, 'v'));
        lemma_lacking_blocks("linuxlab.network="@ + "internal-lab"@, forbidden_words()[3], 0);
        assert(lacks("linuxlab.network="@ + "internal-lab"@, 's'));
        lemma_lacking_blocks("linuxlab.network="@ + "internal-lab"@, forbidden_words()[4], 1);
        assert(lacks("linuxlab.network="@ + "internal-lab"@, 'h'));
        lemma_lacking_blocks("linuxlab.network="@ + "internal-lab"@, forbidden_words()[5], 0);
        assert(lacks("linuxlab.network="@ + "internal-lab"@, 'g'));
        lemma_lacking_blocks("linuxlab.network="@ + "internal-lab"@, forbidden_words()[6], 0);
        assert(lacks("linuxlab.network="@ + "internal-lab"@, 'd'));
        lemma_lacking_blocks("linuxlab.network="@ + "internal-lab"@, forbidden_words()[7], 3);
        assert(free_of_forbidden("linuxlab.network="@ + "internal-lab"@));
    }
    {
        reveal_strlit("linuxlab.network=");
        reveal_strlit("restricted-internet");
        assert(lacks("linuxlab.network="@ + "restricted-internet"@, 'g'));
        lemma_lacking_blocks("linuxlab.network="@ + "restricted-internet"@, forbidden_words()[0], 3);
        assert(lacks("linuxlab.network="@ + "restricted-internet"@, 'v'));
        lemma_lacking_blocks("linuxlab.network="@ + "restricted-internet"@, forbidden_words()[1], 0);
        assert(lacks("linuxlab.network="@ + "restricted-internet"@, 'f'));
        lemma_lacking_blocks("linuxlab.network="@ + "restricted-internet"@, forbidden_words()[2], 0);
        assert(lacks("linuxlab.network="@ + "restricted-internet"@, 'v'));
        lemma_lacking_blocks("linuxlab.network="@ + "restricted-internet"@, forbidden_words()[3], 0);
        assert(lacks("linuxlab.network="@ + "restricted-internet"@, 'h'));
        lemma_lacking_blocks("linuxlab.network="@ + "restricted-internet"@, forbidden_words()[4], 4);
        assert(lacks("linuxlab.network="@ + "restricted-internet"@, 'h'));
        lemma_lacking_blocks("linuxlab.network="@ + "restricted-internet"@, forbidden_words()[5], 0);
        assert(lacks("linuxlab.network="@ + "restricted-internet"@, 'g'));
        lemma_lacking_blocks("linuxlab.network="@ + "restricted-internet"@, forbidden_words()[6], 0);
        assert(lacks("linuxlab.network="@ + "restricted-internet"@, 'g'));
        lemma_lacking_blocks("linuxlab.network="@ + "restricted-internet"@, forbidden_words()[7], 4);
        assert(free_of_forbidden("linuxlab.network="@ + "restricted-internet"@));
    }
}


/// No argument of the command line shares a host directory or device with the guest, opens a
/// display, bridges the guest onto the host network or forwards a port, provided the paths and
/// the token the configuration supplies do not themselves spell one of those words.
pub proof fn lemma_no_sharing_or_forwarding(cfg: VmConfig)
    requires
        free_of_forbidden(render_spec(cfg.kernel@)),
        free_of_forbidden(render_spec(cfg.overlay@)),
        free_of_forbidden(render_spec(cfg.log_file@)),
        free_of_forbidden(cfg.control_token@),
        cfg.initrd matches Some(p) ==> free_of_forbidden(render_spec(p@)),
    ensures
        forall|i: int| 0 <= i < build_args_spec(cfg).len() ==> free_of_forbidden(#[trigger] build_args_spec(cfg)[i]),
{
    reveal_strlit("-nographic");
    reveal_strlit("virtfs");
    reveal_strlit("fsdev");
    reveal_strlit("vfio");
    reveal_strlit("usb-host");
    reveal_strlit("hostfwd");
    reveal_strlit("guestfwd");
    reveal_strlit("bridge");
    lemma_head_parts_free();
    lemma_machine_parts_free();
    lemma_boot_parts_free();
    lemma_channel_parts_free();
    lemma_network_parts_free();
    lemma_cmdline_parts_free();
    reveal_strlit("socket,id=console,host=127.0.0.1,port=");
    reveal_strlit("socket,id=agent,host=127.0.0.1,port=");
    reveal_strlit("tcp:127.0.0.1:");
    reveal_strlit(",server=on,wait=off,telnet=off");
    reveal_strlit(",server=on,wait=off");
    reveal_strlit("id=root,file=");
    reveal_strlit(",format=qcow2,if=none,cache=writeback,discard=unmap,detect-zeroes=unmap");
    reveal_strlit("linuxlab.token=");
    let cpus: nat = if cfg.cpus >= 1 { cfg.cpus as nat } else { 1 };
    lemma_decimal_free(cpus);
    lemma_decimal_free(cfg.memory_mb as nat);
    lemma_decimal_free(cfg.console_port as nat);
    lemma_decimal_free(cfg.agent_port as nat);
    lemma_decimal_free(cfg.qmp_port as nat);
    // Each glued argument: a fixed part ending in `=` or `:`, a number or path, and a fixed
    // part starting with `,`.
    let console = "socket,id=console,host=127.0.0.1,port="@;
    let agent = "socket,id=agent,host=127.0.0.1,port="@;
    let qmp = "tcp:127.0.0.1:"@;
    lemma_glued_left(console, decimal(cfg.console_port as nat));
    lemma_glued_right(console + decimal(cfg.console_port as nat), ",server=on,wait=off,telnet=off"@);
    lemma_glued_left(agent, decimal(cfg.agent_port as nat));
    lemma_glued_right(agent + decimal(cfg.agent_port as nat), ",server=on,wait=off"@);
    lemma_glued_left(qmp, decimal(cfg.qmp_port as nat));
    lemma_glued_right(qmp + decimal(cfg.qmp_port as nat), ",server=on,wait=off"@);
    let file = "id=root,file="@;
    lemma_glued_left(file, render_spec(cfg.overlay@));
    lemma_glued_right(
        file + render_spec(cfg.overlay@),
        ",format=qcow2,if=none,cache=writeback,discard=unmap,detect-zeroes=unmap"@,
    );
    lemma_glued_left("linuxlab.token="@, cfg.control_token@);
    // The kernel command line: free words joined by spaces, which no forbidden word has.
    let parts = cmdline_parts(cfg);
    assert forall|p: int| 0 <= p < parts.len() implies free_of_forbidden(#[trigger] parts[p]) by {}
    assert forall|i: int| 0 <= i < forbidden_words().len() implies !contains(
        kernel_cmdline_spec(cfg),
        #[trigger] forbidden_words()[i],
    ) by {
        let w = forbidden_words()[i];
        assert forall|j: int| 0 <= j < w.len() implies #[trigger] w[j] != ' ' by {}
        assert forall|p: int, k: int| 0 <= p < parts.len() implies !(#[trigger] occurs_at(parts[p], w, k)) by {
            assert(free_of_forbidden(parts[p]));
            assert(!contains(parts[p], w));
        }
        lemma_join_adds_no_occurrence(parts, w);
    }
    assert(free_of_forbidden(kernel_cmdline_spec(cfg)));
    // Block by block, then the whole vector.
    let h = head_args(cfg);
    let m = machine_args(cfg.machine);
    let b = boot_args(cfg);
    let c = channel_args(cfg);
    let n = network_args(cfg);
    let l = seq!["-D"@, render_spec(cfg.log_file@)];
    assert forall|j: int| 0 <= j < h.len() implies free_of_forbidden(#[trigger] h[j]) by {}
    assert forall|j: int| 0 <= j < m.len() implies free_of_forbidden(#[trigger] m[j]) by {}
    assert forall|j: int| 0 <= j < b.len() implies free_of_forbidden(#[trigger] b[j]) by {}
    assert forall|j: int| 0 <= j < c.len() implies free_of_forbidden(#[trigger] c[j]) by {}
    assert forall|j: int| 0 <= j < n.len() implies free_of_forbidden(#[trigger] n[j]) by {}
    assert forall|j: int| 0 <= j < l.len() implies free_of_forbidden(#[trigger] l[j]) by {}
    let args = build_args_spec(cfg);
    assert(args == h + m + b + c + n + l);
    let o = (h.len() + m.len() + b.len()) as int;
    assert forall|i: int| 0 <= i < args.len() implies free_of_forbidden(#[trigger] args[i]) by {
        if i < h.len() {
            assert(args[i] == h[i]);
        } else if i < h.len() + m.len() {
            assert(args[i] == m[i - h.len()]);
        } else if i < o {
            assert(args[i] == b[i - h.len() - m.len()]);
        } else if i < o + c.len() {
            assert(args[i] == c[i - o]);
        } else if i < o + c.len() + n.len() {
            assert(args[i] == n[i - o - c.len()]);
        } else {
            assert(args[i] == l[i - o - c.len() - n.len()]);
        }
    }
}

} // verus!
