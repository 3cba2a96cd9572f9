use std::collections::HashMap;

use cobra::memory::{
    decode_mods, BeatmapField, ChainStep, ChainWalk, PointerChain, ResolveError, SignatureScan,
    StaticAddresses, beatmap_field_address, SIGNATURE_COUNT,
};
use cobra::signature::{find_signature, Signature, SignatureByte, SignatureError};

fn image_with_signature_at_ten() -> Vec<u8> {
    let mut image = vec![0u8; 32];
    image[10] = 0xAA;
    image[11] = 0x55;
    image[12] = 0xCC;
    image
}

#[test]
fn signature_found_at_its_offset() {
    let sig = Signature::parse("AA ?? CC").unwrap();
    let image = image_with_signature_at_ten();
    assert_eq!(find_signature(&image, &sig), Some(10));
}

#[test]
fn signature_missing_is_reported() {
    let sig = Signature::parse("AA ?? CC").unwrap();
    let image = vec![0xAAu8; 40];
    assert_eq!(find_signature(&image, &sig), None);
    let mut scan = SignatureScan::new(vec![sig]);
    scan.feed(0x1000, &image);
    assert_eq!(scan.addresses(), Err(ResolveError::SignatureNotFound(0)));
}

#[test]
fn scan_reports_region_address_of_first_match() {
    let sig = Signature::parse("AA ?? CC").unwrap();
    let mut scan = SignatureScan::new(vec![sig]);
    scan.feed(0x4000, &[1, 2, 3]);
    assert!(!scan.is_complete());
    scan.feed(0x8000, &image_with_signature_at_ten());
    assert!(scan.is_complete());
    // a later region does not replace the first match
    scan.feed(0x100, &[0xAA, 0x00, 0xCC]);
    assert_eq!(scan.addresses(), Ok(vec![0x800A]));
}

#[test]
fn signature_first_of_several_matches() {
    let sig = Signature::parse("30 ?? 50").unwrap();
    let buff = vec![0xFF, 0x30, 0xA3, 0x50, 0x30, 0x00, 0x50];
    assert_eq!(find_signature(&buff, &sig), Some(1));
    let sig = Signature::parse("?? 30 ?? ?? ?? ?? CB").unwrap();
    assert_eq!(find_signature(&buff, &sig), None);
}

#[test]
fn signature_text_forms() {
    let sig = Signature::parse("ab ?? 0F").unwrap();
    assert_eq!(
        sig.bytes,
        vec![SignatureByte::Byte(0xAB), SignatureByte::Any, SignatureByte::Byte(0x0F)]
    );
    assert_eq!(Signature::parse("AB CD E").err(), Some(SignatureError::InvalidLength(7)));
    assert_eq!(Signature::parse("AB XY").err(), Some(SignatureError::InvalidToken));
    assert_eq!(Signature::parse("AB-CD").err(), Some(SignatureError::InvalidToken));
    assert_eq!(Signature::parse("?A 00").err(), Some(SignatureError::InvalidToken));
    assert_eq!(Signature::parse("AB C ").err(), Some(SignatureError::InvalidToken));
    assert_eq!(Signature::parse("100 1").err(), Some(SignatureError::InvalidToken));
    assert_eq!(Signature::parse("-1 00").err(), Some(SignatureError::InvalidToken));
    // one-digit tokens and a leading plus are hexadecimal bytes too
    assert_eq!(
        Signature::parse("A B C").unwrap().bytes,
        vec![SignatureByte::Byte(0xA), SignatureByte::Byte(0xB), SignatureByte::Byte(0xC)]
    );
    assert_eq!(
        Signature::parse("+A 0B").unwrap().bytes,
        vec![SignatureByte::Byte(0xA), SignatureByte::Byte(0x0B)]
    );
    assert_eq!(
        Signature::parse("00F A").unwrap().bytes,
        vec![SignatureByte::Byte(0x0F), SignatureByte::Byte(0x0A)]
    );
}

#[test]
fn all_static_signatures_parse() {
    let sigs = StaticAddresses::signatures().unwrap();
    assert_eq!(sigs.len(), SIGNATURE_COUNT);
    assert_eq!(sigs[2].bytes.len(), 17);
}

#[test]
fn static_addresses_from_scan() {
    let sigs = StaticAddresses::signatures().unwrap();
    let mut scan = SignatureScan::new(sigs);
    // one region holding the base signature only
    scan.feed(0x2000, &[0, 0xF8, 0x01, 0x74, 0x04, 0x83, 0x65]);
    assert_eq!(StaticAddresses::new(&scan).err(), Some(ResolveError::SignatureNotFound(1)));
    assert_eq!(scan.found[0], Some(0x2001));
}

/// A fake process memory that counts the reads made of it.
struct FakeMemory {
    pointers: HashMap<u32, u32>,
    derefs: usize,
}

impl FakeMemory {
    fn read_pointer(&mut self, addr: u32) -> u32 {
        self.derefs += 1;
        self.pointers[&addr]
    }
}

fn walk(chain: &PointerChain, mem: &mut FakeMemory) -> (u32, usize) {
    let mut w = ChainWalk::new(chain);
    let mut reads = 0;
    loop {
        match w.step() {
            ChainStep::Deref(addr) => {
                let p = mem.read_pointer(addr);
                w.resume(p);
            }
            ChainStep::Read(addr) => {
                reads += 1;
                return (addr, reads);
            }
        }
    }
}

#[test]
fn chain_of_three_offsets_reads_three_pointers_then_the_field() {
    let mut mem = FakeMemory { pointers: HashMap::new(), derefs: 0 };
    mem.pointers.insert(0x100, 0x2000);
    mem.pointers.insert(0x2004, 0x3000);
    mem.pointers.insert(0x3038, 0x4000);
    let chain = PointerChain { start: 0x100, offsets: vec![0x4, 0x38, 0x1c] };
    let (target, reads) = walk(&chain, &mut mem);
    assert_eq!(mem.derefs, 3);
    assert_eq!(reads, 1);
    assert_eq!(target, 0x401c);
}

#[test]
fn chain_offsets_wrap_in_32_bits() {
    let mut mem = FakeMemory { pointers: HashMap::new(), derefs: 0 };
    mem.pointers.insert(0x10, 0x2);
    let chain = PointerChain { start: 0x10, offsets: vec![-4] };
    let (target, _) = walk(&chain, &mut mem);
    assert_eq!(target, 0xFFFF_FFFE);
}

#[test]
fn status_chain_follows_the_status_address() {
    let addrs = StaticAddresses {
        base: 0x1000,
        status: 0x2000,
        menu_mods: 0,
        rulesets: 0x3000,
        playtime: 0x4000,
        skin: 0,
        chat_checker: 0,
        audio_time_base: 0,
        ig_time_base: 0,
        settings: 0x5000,
    };
    let chain = addrs.status_chain();
    assert_eq!(chain.start, 0x1FFC);
    assert_eq!(chain.offsets, vec![0]);
    let chain = addrs.mods_chain();
    assert_eq!(chain.start, 0x2FF5);
    assert_eq!(chain.offsets, vec![0x4, 0x38, 0x1c]);
    assert_eq!(beatmap_field_address(0x7000, BeatmapField::Checksum), 0x706c);
}

#[test]
fn mods_are_the_xor_of_their_halves() {
    assert_eq!(decode_mods(0xFFFF_0000_0000_0048, 0xFFFF_0000_0000_0008), 0x40);
}
