use rand_wipe::buffer::{block_len, padding_for, Buf, BUF_ALIGN, BUF_SIZE, MEMORY_CAP};
use rand_wipe::stream::RandomStream;

#[test]
fn the_block_is_one_mebibyte_on_an_eight_kibibyte_boundary() {
    assert_eq!(BUF_SIZE, 1 << 20);
    assert_eq!(BUF_ALIGN, 8192);
    assert!(BUF_ALIGN.is_power_of_two());
    assert_eq!(BUF_SIZE % BUF_ALIGN, 0);
}

#[test]
fn padding_reaches_the_next_boundary() {
    assert_eq!(padding_for(0, 8192), 0);
    assert_eq!(padding_for(1, 8192), 8191);
    assert_eq!(padding_for(8191, 8192), 1);
    assert_eq!(padding_for(8192, 8192), 0);
    assert_eq!(padding_for(8193, 8192), 8191);
    assert_eq!(padding_for(12345, 1), 0);
    assert_eq!(padding_for(10, 3), 2);
    assert_eq!(padding_for(usize::MAX, 8192), 1);
}

#[test]
fn padding_is_under_one_unit_and_aligns() {
    for addr in [0usize, 1, 4095, 4096, 8191, 8192, 1 << 20, (1 << 20) + 17, 0x7ffe_dead_beef] {
        for align in [1usize, 2, 512, 4096, 8192] {
            let pad = padding_for(addr, align);
            assert!(pad < align);
            assert_eq!((addr + pad) % align, 0);
        }
    }
}

#[test]
fn a_new_block_is_aligned_zeros() {
    let buf = Buf::new();
    let block = buf.block();
    assert_eq!(block.len(), BUF_SIZE);
    assert!(block.iter().all(|b| *b == 0));
    assert_eq!(block.as_ptr() as usize % BUF_ALIGN, 0);
}

#[test]
fn every_new_block_is_aligned() {
    let blocks: Vec<Buf> = (0..8).map(|_| Buf::new()).collect();
    for buf in &blocks {
        assert_eq!(buf.block().as_ptr() as usize % BUF_ALIGN, 0);
        assert_eq!(buf.block().len() % BUF_ALIGN, 0);
    }
}

#[test]
fn a_refill_overwrites_the_block_in_place() {
    let mut stream = RandomStream::from_os().expect("entropy");
    let mut buf = Buf::new();
    let place = buf.block().as_ptr() as usize;
    buf.refill(&mut stream);
    assert_eq!(buf.block().len(), BUF_SIZE);
    assert_eq!(buf.block().as_ptr() as usize, place);
    assert!(buf.block().iter().any(|b| *b != 0));
    assert!(buf.block()[..64].iter().any(|b| *b != 0));
    assert!(buf.block()[BUF_SIZE - 64..].iter().any(|b| *b != 0));
}

#[test]
fn refills_do_not_repeat() {
    let mut stream = RandomStream::from_os().expect("entropy");
    let mut buf = Buf::new();
    buf.refill(&mut stream);
    let first = buf.block().to_vec();
    buf.refill(&mut stream);
    assert_ne!(first.as_slice(), buf.block());
}

#[test]
fn streams_are_seeded_apart() {
    let mut one = RandomStream::from_os().expect("entropy");
    let mut two = RandomStream::from_os().expect("entropy");
    let mut a = vec![0u8; 4096];
    let mut b = vec![0u8; 4096];
    one.fill(&mut a);
    two.fill(&mut b);
    assert_ne!(a, b);
    assert!(a.iter().any(|x| *x != 0));
}

#[test]
fn a_fill_takes_any_length() {
    let mut stream = RandomStream::from_os().expect("entropy");
    let mut none: [u8; 0] = [];
    stream.fill(&mut none);
    let mut odd = vec![0u8; 1021];
    stream.fill(&mut odd);
    assert_eq!(odd.len(), 1021);
    assert!(odd.iter().any(|x| *x != 0));
}

#[test]
fn blocks_come_in_whole_units_up_to_the_longest() {
    assert!(Buf::with_len(0).is_none());
    assert!(Buf::with_len(1).is_none());
    assert!(Buf::with_len(BUF_ALIGN - 1).is_none());
    assert!(Buf::with_len(BUF_ALIGN + 1).is_none());
    assert!(Buf::with_len(BUF_SIZE + BUF_ALIGN).is_none());
    assert!(Buf::with_len(usize::MAX).is_none());
    for len in [BUF_ALIGN, 2 * BUF_ALIGN, BUF_SIZE / 2, BUF_SIZE - BUF_ALIGN, BUF_SIZE] {
        let buf = Buf::with_len(len).expect("a valid length");
        assert_eq!(buf.len(), len);
        assert_eq!(buf.block().len(), len);
        assert!(buf.block().iter().all(|b| *b == 0));
        assert_eq!(buf.block().as_ptr() as usize % BUF_ALIGN, 0);
    }
    assert_eq!(Buf::new().len(), BUF_SIZE);
}

#[test]
fn a_short_block_is_refilled_whole() {
    let mut stream = RandomStream::from_os().expect("entropy");
    let mut buf = Buf::with_len(BUF_ALIGN).expect("one unit");
    buf.refill(&mut stream);
    assert_eq!(buf.len(), BUF_ALIGN);
    assert!(buf.block()[..32].iter().any(|b| *b != 0));
    assert!(buf.block()[BUF_ALIGN - 32..].iter().any(|b| *b != 0));
}

#[test]
fn the_run_decides_the_block_length() {
    assert_eq!(MEMORY_CAP, 256 << 20);
    assert_eq!(block_len(0), BUF_SIZE);
    assert_eq!(block_len(1), BUF_SIZE);
    assert_eq!(block_len(2), BUF_SIZE);
    assert_eq!(block_len(256), BUF_SIZE);
    assert_eq!(block_len(257), 1040384);
    assert_eq!(block_len(512), 524288);
    assert_eq!(block_len(1000), 262144);
    assert_eq!(block_len(32768), BUF_ALIGN);
    assert_eq!(block_len(32769), BUF_ALIGN);
    assert_eq!(block_len(usize::MAX), BUF_ALIGN);
}

#[test]
fn the_blocks_of_a_run_stay_within_the_cap() {
    for workers in [1usize, 2, 3, 255, 256, 257, 300, 1024, 4097, 32767, 32768] {
        let len = block_len(workers);
        assert!(len >= BUF_ALIGN && len <= BUF_SIZE);
        assert_eq!(len % BUF_ALIGN, 0);
        assert!(workers * len <= MEMORY_CAP);
        assert!(len == BUF_SIZE || workers * (len + BUF_ALIGN) > MEMORY_CAP);
    }
}
