//! Static addresses found by signature, and the pointer chains that lead from
//! them to the fields of the game's objects.
//!
//! All addresses of the observed process are 32-bit; offsets are added with
//! 32-bit wrap-around. A chain is walked one step at a time: the walk says
//! which pointer to read next, the caller reads it and hands it back.
use vstd::prelude::*;

use crate::signature::{Signature, SignatureError, first_match, find_signature, signature_of};
use vstd::string::StringSliceAdditionalSpecFns;

verus! {

/// Signatures of the static addresses, in the order of the fields of
/// [`StaticAddresses`].
pub const SIGNATURE_COUNT: usize = 10;

/// Where the game keeps the roots of its state, found once per attachment.
#[derive(Debug, PartialEq, Eq, Structural, Clone, Copy)]
pub struct StaticAddresses {
    pub base: u32,
    pub status: u32,
    pub menu_mods: u32,
    pub rulesets: u32,
    pub playtime: u32,
    pub skin: u32,
    pub chat_checker: u32,
    pub audio_time_base: u32,
    pub ig_time_base: u32,
    pub settings: u32,
}

/// The state kept for one attachment to the game.
#[derive(Debug, PartialEq, Eq, Structural, Clone, Copy)]
pub struct State {
    pub addresses: StaticAddresses,
}

#[derive(Debug, PartialEq, Eq, Structural, Clone, Copy)]
pub enum ResolveError {
    /// The signature at this position was found nowhere in the scanned memory.
    SignatureNotFound(usize),
}

/// A search for several signatures over memory regions handed in one by one.
/// Each signature keeps the address of its first match: in the first region
/// that holds one, at the first offset there.
pub struct SignatureScan {
    pub signatures: Vec<Signature>,
    pub found: Vec<Option<u32>>,
}

/// The address at which `sig` is found in a region at `base`, if anywhere.
pub open spec fn match_address(base: u32, region: Seq<u8>, sig: Signature) -> Option<u32> {
    match first_match(region, sig.bytes@) {
        Some(i) => Some((base + i) as u32),
        None => None,
    }
}

impl SignatureScan {
    pub open spec fn wf(&self) -> bool {
        self.found@.len() == self.signatures@.len()
    }

    /// A scan that has found nothing yet.
    pub fn new(signatures: Vec<Signature>) -> (r: SignatureScan)
        ensures
            r.wf(),
            r.signatures@ == signatures@,
            forall|k: int| 0 <= k < r.found@.len() ==> r.found@[k] is None,
    {
        let mut found: Vec<Option<u32>> = Vec::new();
        let mut k: usize = 0;
        while k < signatures.len()
            invariant
                k <= signatures@.len(),
                found@.len() == k,
                forall|i: int| 0 <= i < k ==> found@[i] is None,
            decreases signatures@.len() - k,
        {
            found.push(None);
            k = k + 1;
        }
        SignatureScan { signatures, found }
    }

    /// Searches the region of memory that starts at address `base` for every
    /// signature not found yet.
    pub fn feed(&mut self, base: u32, region: &[u8])
        requires
            old(self).wf(),
            base + region@.len() <= 0x1_0000_0000,
        ensures
            final(self).wf(),
            final(self).signatures@ == old(self).signatures@,
            forall|k: int|
                0 <= k < final(self).found@.len() ==> #[trigger] final(self).found@[k] == if old(
                    self,
                ).found@[k] is Some {
                    old(self).found@[k]
                } else {
                    match_address(base, region@, old(self).signatures@[k])
                },
    {
        let ghost before = self.found@;
        let mut k: usize = 0;
        while k < self.signatures.len()
            invariant
                self.wf(),
                self.signatures@ == old(self).signatures@,
                before == old(self).found@,
                before.len() == self.found@.len(),
                base + region@.len() <= 0x1_0000_0000,
                k <= self.found@.len(),
                forall|i: int|
                    0 <= i < k ==> #[trigger] self.found@[i] == if before[i] is Some {
                        before[i]
                    } else {
                        match_address(base, region@, self.signatures@[i])
                    },
                forall|i: int| k <= i < self.found@.len() ==> #[trigger] self.found@[i] == before[i],
            decreases self.signatures@.len() - k,
        {
            if self.found[k].is_none() {
                let hit = find_signature(region, &self.signatures[k]);
                proof {
                    if self.signatures@[k as int].bytes@.len() == 0 {
                        assert(crate::signature::matches_at(
                            region@,
                            self.signatures@[k as int].bytes@,
                            0,
                        ));
                    }
                }
                let addr = match hit {
                    Some(i) => Some(base + i as u32),
                    None => None,
                };
                self.found.set(k, addr);
            }
            k = k + 1;
        }
    }

    /// Whether every signature has been found.
    pub fn is_complete(&self) -> (r: bool)
        requires
            self.wf(),
        ensures
            r == forall|k: int| 0 <= k < self.found@.len() ==> (#[trigger] self.found@[k]) is Some,
    {
        let mut k: usize = 0;
        while k < self.found.len()
            invariant
                k <= self.found@.len(),
                forall|i: int| 0 <= i < k ==> (#[trigger] self.found@[i]) is Some,
            decreases self.found@.len() - k,
        {
            if self.found[k].is_none() {
                return false;
            }
            k = k + 1;
        }
        true
    }

    /// The address found for each signature, or the first one not found.
    pub fn addresses(&self) -> (r: Result<Vec<u32>, ResolveError>)
        requires
            self.wf(),
        ensures
            r matches Ok(a) ==> a@.len() == self.found@.len() && forall|k: int|
                0 <= k < a@.len() ==> self.found@[k] == Some(#[trigger] a@[k]),
            r matches Err(ResolveError::SignatureNotFound(k)) ==> k < self.found@.len()
                && self.found@[k as int] is None && forall|i: int|
                0 <= i < k ==> (#[trigger] self.found@[i]) is Some,
    {
        let mut out: Vec<u32> = Vec::new();
        let mut k: usize = 0;
        while k < self.found.len()
            invariant
                k <= self.found@.len(),
                out@.len() == k,
                forall|i: int| 0 <= i < k ==> self.found@[i] == Some(#[trigger] out@[i]),
                forall|i: int| 0 <= i < k ==> (#[trigger] self.found@[i]) is Some,
            decreases self.found@.len() - k,
        {
            match self.found[k] {
                Some(a) => out.push(a),
                None => {
                    return Err(ResolveError::SignatureNotFound(k));
                },
            }
            k = k + 1;
        }
        Ok(out)
    }
}

/// The text of the signature of the `k`-th static address.
pub open spec fn signature_text(k: int) -> &'static str {
    if k == 0 {
        "F8 01 74 04 83 65"
    } else if k == 1 {
        "48 83 F8 04 73 1E"
    } else if k == 2 {
        "C8 FF ?? ?? ?? ?? ?? 81 0D ?? ?? ?? ?? 00 08 00 00"
    } else if k == 3 {
        "7D 15 A1 ?? ?? ?? ?? 85 C0"
    } else if k == 4 {
        "5E 5F 5D C3 A1 ?? ?? ?? ?? 89 ?? 04"
    } else if k == 5 {
        "75 21 8B 1D"
    } else if k == 6 {
        "0A D7 23 3C 00 00 ?? 01"
    } else if k == 7 {
        "DB 5C 24 34 8B 44 24 34"
    } else if k == 8 {
        "EB 0A A1 ?? ?? ?? ?? A3"
    } else {
        "83 E0 20 85 C0 7E 2F"
    }
}

fn signature_str(k: usize) -> (r: &'static str)
    requires
        k < SIGNATURE_COUNT,
    ensures
        r == signature_text(k as int),
{
    match k {
        0 => "F8 01 74 04 83 65",
        1 => "48 83 F8 04 73 1E",
        2 => "C8 FF ?? ?? ?? ?? ?? 81 0D ?? ?? ?? ?? 00 08 00 00",
        3 => "7D 15 A1 ?? ?? ?? ?? 85 C0",
        4 => "5E 5F 5D C3 A1 ?? ?? ?? ?? 89 ?? 04",
        5 => "75 21 8B 1D",
        6 => "0A D7 23 3C 00 00 ?? 01",
        7 => "DB 5C 24 34 8B 44 24 34",
        8 => "EB 0A A1 ?? ?? ?? ?? A3",
        _ => "83 E0 20 85 C0 7E 2F",
    }
}

impl StaticAddresses {
    /// The signatures of the static addresses, in field order.
    pub fn signatures() -> (r: Result<Vec<Signature>, SignatureError>)
        ensures
            r matches Ok(v) ==> v@.len() == SIGNATURE_COUNT && forall|k: int|
                0 <= k < SIGNATURE_COUNT ==> signature_of(#[trigger] signature_text(k).spec_bytes())
                    == Some(v@[k].bytes@),
            r is Err ==> exists|k: int|
                0 <= k < SIGNATURE_COUNT && (#[trigger] signature_of(
                    signature_text(k).spec_bytes(),
                )) is None,
    {
        let mut v: Vec<Signature> = Vec::new();
        let mut k: usize = 0;
        while k < SIGNATURE_COUNT
            invariant
                k <= SIGNATURE_COUNT,
                v@.len() == k,
                forall|i: int|
                    0 <= i < k ==> signature_of(#[trigger] signature_text(i).spec_bytes()) == Some(
                        v@[i].bytes@,
                    ),
            decreases SIGNATURE_COUNT - k,
        {
            match Signature::parse(signature_str(k)) {
                Ok(sig) => v.push(sig),
                Err(e) => {
                    assert(signature_of(signature_text(k as int).spec_bytes()) is None);
                    return Err(e);
                },
            }
            k = k + 1;
        }
        Ok(v)
    }

    /// The static addresses from a scan of the signatures of
    /// [`StaticAddresses::signatures`], or the first one not found.
    pub fn new(scan: &SignatureScan) -> (r: Result<StaticAddresses, ResolveError>)
        requires
            scan.wf(),
            scan.found@.len() == SIGNATURE_COUNT,
        ensures
            r matches Ok(s) ==> {
                &&& scan.found@[0] == Some(s.base)
                &&& scan.found@[1] == Some(s.status)
                &&& scan.found@[2] == Some(s.menu_mods)
                &&& scan.found@[3] == Some(s.rulesets)
                &&& scan.found@[4] == Some(s.playtime)
                &&& scan.found@[5] == Some(s.skin)
                &&& scan.found@[6] == Some(s.chat_checker)
                &&& scan.found@[7] == Some(s.audio_time_base)
                &&& scan.found@[8] == Some(s.ig_time_base)
                &&& scan.found@[9] == Some(s.settings)
            },
            r matches Err(ResolveError::SignatureNotFound(k)) ==> k < SIGNATURE_COUNT
                && scan.found@[k as int] is None,
            r is Err <==> exists|k: int| 0 <= k < SIGNATURE_COUNT && (#[trigger] scan.found@[k]) is None,
    {
        let a = scan.addresses()?;
        Ok(StaticAddresses {
            base: a[0],
            status: a[1],
            menu_mods: a[2],
            rulesets: a[3],
            playtime: a[4],
            skin: a[5],
            chat_checker: a[6],
            audio_time_base: a[7],
            ig_time_base: a[8],
            settings: a[9],
        })
    }
}

/// A path from a static address to a field: read the pointer stored at
/// `start`, add the first offset, read the pointer stored there, add the next
/// offset, and so on; the field is read at the address reached last.
pub struct PointerChain {
    pub start: u32,
    pub offsets: Vec<i32>,
}

/// What a walk along a chain needs next.
#[derive(Debug, PartialEq, Eq, Structural, Clone, Copy)]
pub enum ChainStep {
    /// Read the 32-bit pointer stored at this address and hand it back.
    Deref(u32),
    /// The chain is done: read the field at this address.
    Read(u32),
}

/// A walk along a pointer chain, `done` steps in.
pub struct ChainWalk {
    pub offsets: Vec<i32>,
    pub done: usize,
    pub addr: u32,
}

/// `addr` moved by `offset`, with 32-bit wrap-around.
pub open spec fn offset_address(addr: u32, offset: i32) -> u32 {
    addr.wrapping_add_signed(offset)
}

/// What the walk `w` needs next.
pub open spec fn walk_step(w: ChainWalk) -> ChainStep {
    if w.done < w.offsets@.len() {
        ChainStep::Deref(w.addr)
    } else {
        ChainStep::Read(w.addr)
    }
}

/// The walk `w` after the pointer it asked for turned out to be `pointer`.
pub open spec fn walk_next(w: ChainWalk, pointer: u32) -> ChainWalk {
    ChainWalk {
        addr: offset_address(pointer, w.offsets@[w.done as int]),
        done: (w.done + 1) as usize,
        ..w
    }
}

/// The walk `w` after `k` steps in a memory whose 32-bit pointers are `mem`.
pub open spec fn walk_run(w: ChainWalk, mem: spec_fn(u32) -> u32, k: nat) -> ChainWalk
    decreases k,
{
    if k == 0 {
        w
    } else {
        let prev = walk_run(w, mem, (k - 1) as nat);
        walk_next(prev, mem(prev.addr))
    }
}

/// The address of the field that the chain from `addr` through `offsets`
/// reaches in a memory whose 32-bit pointers are `mem`.
pub open spec fn chain_target(mem: spec_fn(u32) -> u32, addr: u32, offsets: Seq<i32>) -> u32
    decreases offsets.len(),
{
    if offsets.len() == 0 {
        addr
    } else {
        chain_target(mem, offset_address(mem(addr), offsets[0]), offsets.drop_first())
    }
}

impl ChainWalk {
    /// A walk at the start of `chain`.
    pub fn new(chain: &PointerChain) -> (r: ChainWalk)
        ensures
            r.offsets@ == chain.offsets@,
            r.done == 0,
            r.addr == chain.start,
    {
        ChainWalk { offsets: chain.offsets.clone(), done: 0, addr: chain.start }
    }

    /// What the walk needs next.
    pub fn step(&self) -> (r: ChainStep)
        ensures
            r == walk_step(*self),
    {
        if self.done < self.offsets.len() {
            ChainStep::Deref(self.addr)
        } else {
            ChainStep::Read(self.addr)
        }
    }

    /// Hands back the pointer read at the address of a `Deref` step.
    pub fn resume(&mut self, pointer: u32)
        requires
            old(self).done < old(self).offsets@.len(),
        ensures
            *final(self) == walk_next(*old(self), pointer),
    {
        let len = self.offsets.len();
        assert(self.done < len);
        self.addr = pointer.wrapping_add_signed(self.offsets[self.done]);
        self.done = self.done + 1;
    }
}

proof fn lemma_walk_run(w: ChainWalk, mem: spec_fn(u32) -> u32, k: nat)
    requires
        w.done == 0,
        k <= w.offsets@.len() <= usize::MAX,
    ensures
        walk_run(w, mem, k).done == k,
        walk_run(w, mem, k).offsets == w.offsets,
        chain_target(mem, w.addr, w.offsets@) == chain_target(
            mem,
            walk_run(w, mem, k).addr,
            w.offsets@.subrange(k as int, w.offsets@.len() as int),
        ),
    decreases k,
{
    assert(w.offsets@.subrange(0, w.offsets@.len() as int) =~= w.offsets@);
    if k > 0 {
        lemma_walk_run(w, mem, (k - 1) as nat);
        let prev = walk_run(w, mem, (k - 1) as nat);
        let rest = w.offsets@.subrange(k - 1, w.offsets@.len() as int);
        assert(rest.drop_first() =~= w.offsets@.subrange(k as int, w.offsets@.len() as int));
    }
}

/// A walk along a chain of `n` offsets, each pointer it asks for answered from
/// the same memory, asks for exactly `n` dereferences, then for one read of
/// the field, at the address that the chain leads to.
pub proof fn lemma_chain_walk_steps(chain_start: u32, offsets: Seq<i32>, mem: spec_fn(u32) -> u32)
    requires
        offsets.len() <= usize::MAX,
    ensures
        forall|w: ChainWalk|
            w.done == 0 && w.addr == chain_start && w.offsets@ == offsets ==> {
                &&& forall|k: nat|
                    k < offsets.len() ==> #[trigger] walk_step(walk_run(w, mem, k))
                        == ChainStep::Deref(walk_run(w, mem, k).addr)
                &&& walk_step(walk_run(w, mem, offsets.len())) == ChainStep::Read(
                    chain_target(mem, chain_start, offsets),
                )
            },
{
    assert forall|w: ChainWalk|
        w.done == 0 && w.addr == chain_start && w.offsets@ == offsets implies {
            &&& forall|k: nat|
                k < offsets.len() ==> #[trigger] walk_step(walk_run(w, mem, k)) == ChainStep::Deref(
                    walk_run(w, mem, k).addr,
                )
            &&& walk_step(walk_run(w, mem, offsets.len())) == ChainStep::Read(
                chain_target(mem, chain_start, offsets),
            )
        } by {
        assert forall|k: nat| k < offsets.len() implies #[trigger] walk_step(walk_run(w, mem, k))
            == ChainStep::Deref(walk_run(w, mem, k).addr) by {
            lemma_walk_run(w, mem, k);
        }
        lemma_walk_run(w, mem, offsets.len());
        assert(offsets.subrange(offsets.len() as int, offsets.len() as int) =~= Seq::<i32>::empty());
    }
}

/// What identifies a loaded beatmap and locates its files, as read from the game.
pub struct BeatmapIdentity {
    /// Hash of the beatmap file; the key under which a beatmap is harvested once.
    pub checksum: String,
    pub title: String,
    pub author: String,
    pub creator: String,
    pub difficulty: String,
    pub folder: String,
    pub filename: String,
    pub audio_filename: String,
    pub cover_filename: String,
}

/// A field of the loaded beatmap object, read as a string.
#[derive(Debug, PartialEq, Eq, Structural, Clone, Copy)]
pub enum BeatmapField {
    Checksum,
    Author,
    Creator,
    Title,
    Difficulty,
    Folder,
    Filename,
    AudioFilename,
    CoverFilename,
}

pub open spec fn beatmap_field_offset(f: BeatmapField) -> i32 {
    match f {
        BeatmapField::Checksum => 0x6c,
        BeatmapField::Author => 0x18,
        BeatmapField::Creator => 0x7c,
        BeatmapField::Title => 0x24,
        BeatmapField::Difficulty => 0xac,
        BeatmapField::Folder => 0x78,
        BeatmapField::Filename => 0x90,
        BeatmapField::AudioFilename => 0x64,
        BeatmapField::CoverFilename => 0x68,
    }
}

/// A field of the result screen's score object.
#[derive(Debug, PartialEq, Eq, Structural, Clone, Copy)]
pub enum ResultField {
    /// A string.
    Username,
    /// An `i32`.
    Score,
    /// An `i32` whose low byte is the game mode.
    Mode,
    /// The judgement counts and the combo are `i16`.
    Hit300,
    Hit100,
    Hit50,
    HitGeki,
    HitKatu,
    HitMiss,
    MaxCombo,
}

pub open spec fn result_field_offset(f: ResultField) -> i32 {
    match f {
        ResultField::Username => 0x28,
        ResultField::Score => 0x78,
        ResultField::Mode => 0x64,
        ResultField::Hit300 => 0x8a,
        ResultField::Hit100 => 0x88,
        ResultField::Hit50 => 0x8c,
        ResultField::HitGeki => 0x8e,
        ResultField::HitKatu => 0x90,
        ResultField::HitMiss => 0x92,
        ResultField::MaxCombo => 0x68,
    }
}

/// Address of a beatmap field, given the address of the beatmap object.
pub fn beatmap_field_address(object: u32, field: BeatmapField) -> (r: u32)
    ensures
        r == offset_address(object, beatmap_field_offset(field)),
{
    let offset: i32 = match field {
        BeatmapField::Checksum => 0x6c,
        BeatmapField::Author => 0x18,
        BeatmapField::Creator => 0x7c,
        BeatmapField::Title => 0x24,
        BeatmapField::Difficulty => 0xac,
        BeatmapField::Folder => 0x78,
        BeatmapField::Filename => 0x90,
        BeatmapField::AudioFilename => 0x64,
        BeatmapField::CoverFilename => 0x68,
    };
    object.wrapping_add_signed(offset)
}

/// Address of a result field, given the address of the score object.
pub fn result_field_address(object: u32, field: ResultField) -> (r: u32)
    ensures
        r == offset_address(object, result_field_offset(field)),
{
    let offset: i32 = match field {
        ResultField::Username => 0x28,
        ResultField::Score => 0x78,
        ResultField::Mode => 0x64,
        ResultField::Hit300 => 0x8a,
        ResultField::Hit100 => 0x88,
        ResultField::Hit50 => 0x8c,
        ResultField::HitGeki => 0x8e,
        ResultField::HitKatu => 0x90,
        ResultField::HitMiss => 0x92,
        ResultField::MaxCombo => 0x68,
    };
    object.wrapping_add_signed(offset)
}

/// The addresses of the two 64-bit halves whose exclusive or is the mods
/// bitmask, given the address of the mods object.
pub fn mods_halves(object: u32) -> (r: (u32, u32))
    ensures
        r == (offset_address(object, 0xc), offset_address(object, 0x8)),
{
    (object.wrapping_add_signed(0xc), object.wrapping_add_signed(0x8))
}

/// The mods bitmask from its two stored halves.
pub fn decode_mods(first: u64, second: u64) -> (r: u32)
    ensures
        r as u64 == (first ^ second) & 0xFFFF_FFFF,
{
    let x: u64 = (first ^ second) & 0xFFFF_FFFF;
    assert(x <= 0xFFFF_FFFF) by (bit_vector)
        requires
            x == (first ^ second) & 0xFFFF_FFFF,
    ;
    x as u32
}

impl StaticAddresses {
    /// Leads to the status code, a `u32`.
    pub fn status_chain(&self) -> (r: PointerChain)
        ensures
            r.start == offset_address(self.status, -4i32),
            r.offsets@ == seq![0i32],
    {
        PointerChain { start: self.status.wrapping_add_signed(-4), offsets: vec![0] }
    }

    /// Leads to the pointer to the loaded beatmap object; its fields are at
    /// [`beatmap_field_address`].
    pub fn beatmap_chain(&self) -> (r: PointerChain)
        ensures
            r.start == offset_address(self.base, -0xc_i32),
            r.offsets@ == seq![0i32],
    {
        PointerChain { start: self.base.wrapping_add_signed(-0xc), offsets: vec![0] }
    }

    /// Leads to the song library's folder, a string.
    pub fn library_chain(&self) -> (r: PointerChain)
        ensures
            r.start == offset_address(self.settings, 0x8),
            r.offsets@ == seq![0xb8i32, 0x4],
    {
        PointerChain { start: self.settings.wrapping_add_signed(0x8), offsets: vec![0xb8, 0x4] }
    }

    /// Leads to the in-game time in ms, an `i32`.
    pub fn ig_time_chain(&self) -> (r: PointerChain)
        ensures
            r.start == offset_address(self.playtime, 0x5),
            r.offsets@ == seq![0i32],
    {
        PointerChain { start: self.playtime.wrapping_add_signed(0x5), offsets: vec![0] }
    }

    /// Leads to the retry counter, an `i32`.
    pub fn retries_chain(&self) -> (r: PointerChain)
        ensures
            r.start == offset_address(self.base, -0x33_i32),
            r.offsets@ == seq![0x8i32],
    {
        PointerChain { start: self.base.wrapping_add_signed(-0x33), offsets: vec![0x8] }
    }

    /// Leads to the pointer to the result screen's score object; its fields
    /// are at [`result_field_address`].
    pub fn result_chain(&self) -> (r: PointerChain)
        ensures
            r.start == offset_address(self.rulesets, -0xb_i32),
            r.offsets@ == seq![0x4i32, 0x38],
    {
        PointerChain { start: self.rulesets.wrapping_add_signed(-0xb), offsets: vec![0x4, 0x38] }
    }

    /// Leads to the pointer to the mods object; see [`mods_halves`].
    pub fn mods_chain(&self) -> (r: PointerChain)
        ensures
            r.start == offset_address(self.rulesets, -0xb_i32),
            r.offsets@ == seq![0x4i32, 0x38, 0x1c],
    {
        PointerChain {
            start: self.rulesets.wrapping_add_signed(-0xb),
            offsets: vec![0x4, 0x38, 0x1c],
        }
    }
}

} // verus!
