use dl::plan::{calc_piece_size, gen_offsets, is_between, plan_segments, range_header, Segment};

const FILE_SIZE: u64 = 53_143;

fn seg(offset: u64, length: u64) -> Segment {
    Segment { offset, length }
}

#[test]
fn calculating_piece_sizes() {
    // below 8KiB -> do not break into pieces
    assert_eq!(calc_piece_size(100), 100);
    assert_eq!(calc_piece_size(8_191), 8_191);

    // 8KiB..32KiB -> 8KiB
    assert_eq!(calc_piece_size(8_192), 8_192);
    assert_eq!(calc_piece_size(8_193), 8_192);
    assert_eq!(calc_piece_size(131_072), 8_192);

    // 32KiB..50MiB -> 32KiB
    assert_eq!(calc_piece_size(131_073), 32_768);
    assert_eq!(calc_piece_size(52_428_800), 32_768);

    // 50MiB..150MiB -> 64KiB
    assert_eq!(calc_piece_size(52_428_801), 65_536);
    assert_eq!(calc_piece_size(157_286_400), 65_536);

    // 150MiB..350MiB -> 127KiB
    assert_eq!(calc_piece_size(157_286_401), 131_072);
    assert_eq!(calc_piece_size(367_001_600), 131_072);

    // 350Mib..512MiB -> 256KiB
    assert_eq!(calc_piece_size(367_001_601), 262_144);
    assert_eq!(calc_piece_size(536_870_900), 262_144);

    // 512MiB..1GiB -> 512KiB
    assert_eq!(calc_piece_size(536_870_901), 524_288);
    assert_eq!(calc_piece_size(1_073_742_000), 524_288);

    // 1GiB..2GiB -> 1024KiB
    assert_eq!(calc_piece_size(1_073_742_001), 1_048_576);
    assert_eq!(calc_piece_size(2_147_484_000), 1_048_576);

    // above 2GiB -> 2048KiB
    assert_eq!(calc_piece_size(2_147_484_001), 2_097_152);
    assert_eq!(calc_piece_size(200_147_484_00), 2_097_152);
}

#[test]
fn checking_bounds_of_a_range() {
    assert!(is_between(5, 4, 5));
    assert!(!is_between(4, 4, 5));
    assert!(!is_between(6, 4, 5));
}

#[test]
fn download_generating_offsets() {
    assert_eq!(gen_offsets(10, 3), vec![0, 3, 6, 9]);
    assert_eq!(
        gen_offsets(FILE_SIZE, 4096),
        vec![0, 4096, 8192, 12288, 16384, 20480, 24576, 28672, 32768, 36864, 40960, 45056, 49152]
    )
}

#[test]
fn file_generating_offsets() {
    assert_eq!(gen_offsets(10, 3), vec![0, 3, 6, 9]);
    assert_eq!(
        gen_offsets(FILE_SIZE, 4096),
        vec![0, 4096, 8192, 12288, 16384, 20480, 24576, 28672, 32768, 36864, 40960, 45056, 49152]
    )
}

#[test]
fn buffering_a_stream() {
    let results: Vec<u64> = gen_offsets(64, 2).into_iter().map(|n| n * 2).collect();
    assert_eq!(results, (0..128).step_by(4).collect::<Vec<u64>>());
}

#[test]
fn generating_no_offsets_for_an_empty_file() {
    assert_eq!(gen_offsets(0, 5), Vec::<u64>::new());
    assert_eq!(gen_offsets(0, 0), Vec::<u64>::new());
}

#[test]
fn planning_ten_bytes_over_three_workers() {
    assert_eq!(plan_segments(10, 3), vec![seg(0, 3), seg(3, 3), seg(6, 4)]);
}

#[test]
fn planning_ten_bytes_over_one_worker() {
    assert_eq!(plan_segments(10, 1), vec![seg(0, 10)]);
}

#[test]
fn planning_an_empty_file() {
    assert_eq!(plan_segments(0, 8), Vec::<Segment>::new());
}

#[test]
fn planning_a_file_smaller_than_the_parallelism() {
    assert_eq!(plan_segments(3, 8), vec![seg(0, 3)]);
}

#[test]
fn planning_a_remainder_of_a_whole_piece() {
    // 11 bytes over 4 workers: pieces of 2, the last one takes 3
    assert_eq!(
        plan_segments(11, 4),
        vec![seg(0, 2), seg(2, 2), seg(4, 2), seg(6, 2), seg(8, 3)]
    );
}

#[test]
fn planning_a_large_remainder_gives_more_pieces() {
    // 19 bytes over 10 workers: pieces of 1 byte, one per byte
    let segs = plan_segments(19, 10);
    assert_eq!(segs.len(), 19);
    assert_eq!(segs[18], seg(18, 1));
}

#[test]
fn planning_the_small_file_tiles_it() {
    let segs = plan_segments(FILE_SIZE, 8);
    assert_eq!(segs.len(), 8);
    assert_eq!(segs[0].offset, 0);
    for w in segs.windows(2) {
        assert_eq!(w[0].offset + w[0].length, w[1].offset);
        assert!(w[0].offset < w[1].offset);
    }
    let total: u64 = segs.iter().map(|s| s.length).sum();
    assert_eq!(total, FILE_SIZE);
    assert!(segs.len() <= 8 + 1);
}

#[test]
fn planning_the_largest_file() {
    let segs = plan_segments(u64::MAX, 3);
    assert_eq!(segs.len(), 3);
    assert_eq!(segs[2].offset + segs[2].length, u64::MAX);
    assert_eq!(range_header(segs[2]), format!("bytes={}-{}", segs[2].offset, u64::MAX - 1));
}

#[test]
fn writing_a_range_header() {
    assert_eq!(range_header(seg(0, 4096)), "bytes=0-4095");
}

#[test]
fn writing_a_one_byte_range_header() {
    assert_eq!(range_header(seg(53_142, 1)), "bytes=53142-53142");
    assert_eq!(range_header(seg(4096, 4096)), "bytes=4096-8191");
}

#[test]
fn scattering_pieces_in_any_order_rebuilds_the_body() {
    let body: Vec<u8> = (0..1000u32).map(|i| (i * 7 % 251) as u8).collect();
    let segs = plan_segments(body.len() as u64, 6);
    let mut file: Vec<u8> = Vec::new();
    for s in segs.iter().rev() {
        let (start, end) = (s.offset as usize, (s.offset + s.length) as usize);
        if file.len() < end {
            file.resize(end, 0);
        }
        file[start..end].copy_from_slice(&body[start..end]);
    }
    assert_eq!(file.len(), body.len());
    assert_eq!(file, body);
}
