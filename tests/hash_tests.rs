use frost_hash::{
    apply_byte_substitution, bit_mix, byte_substitute, generate_sbox, hash, pad_block, permute,
    permute_round, ROUND_CONSTANTS,
};

fn differing_bits(a: &[u64; 8], b: &[u64; 8]) -> u32 {
    a.iter().zip(b.iter()).map(|(x, y)| (x ^ y).count_ones()).sum()
}

fn assert_bijection(t: &[u8; 256]) {
    let mut seen = [false; 256];
    for &v in t.iter() {
        assert!(!seen[v as usize], "value {} appears twice", v);
        seen[v as usize] = true;
    }
    assert!(seen.iter().all(|&s| s));
}

#[test]
fn determinism_test() {
    let input: &[u8] = b"determinism_test_input_data";
    let h1 = hash(&[input]);
    let h2 = hash(&[input]);
    assert_eq!(h1, h2);
    assert_eq!(
        h1,
        [
            0xc453cf3a29036c84, 0x6baf76c88e20e3b0, 0xd61dc956e315c02f, 0x725ae0d46905f3a8,
            0x486724dc56a7c109, 0x1633b8c152c952d8, 0x884371a8e1ad2b90, 0xd2b76c86ba81b3ce,
        ]
    );
}

#[test]
fn same_contents_in_different_buffers_give_same_digest() {
    let a = b"short".to_vec();
    let b = b"short".to_vec();
    assert_eq!(hash(&[a.as_slice()]), hash(&[b.as_slice()]));
    assert_eq!(
        hash(&[a.as_slice()]),
        [
            0xa52a7ad5e51abeed, 0x6017510a633f8145, 0x8b61b80b1af62962, 0x6dd1360dad89408c,
            0x64389a8ef05ad407, 0xe1d40bccc30abdcf, 0xadc9fdd1fb84d820, 0x37406b640ca4146a,
        ]
    );
}

#[test]
fn no_blocks_give_zero_digest() {
    assert_eq!(hash(&[]), [0u64; 8]);
}

#[test]
fn one_empty_block_differs_from_no_blocks() {
    let empty: &[u8] = b"";
    let h1 = hash(&[empty]);
    let h2 = hash(&[empty]);
    assert_eq!(h1, h2);
    assert_ne!(h1, hash(&[]));
    assert_eq!(
        h1,
        [
            0x6c340fe05e84a4e4, 0x2803a6309f246dc8, 0xcbb82382ce3d0e84, 0x93483a86ba82562d,
            0x72c55433651eb3dc, 0xd83188e9ba1c49a0, 0xc2fb2a76eaf69ad8, 0x3c93773131daafab,
        ]
    );
}

#[test]
fn avalanche_test() {
    let input: &[u8] = b"hello world";
    let mut modified = input.to_vec();
    modified[0] ^= 0x01;
    let h1 = hash(&[input]);
    let h2 = hash(&[modified.as_slice()]);
    let bits = differing_bits(&h1, &h2);
    assert!((150..=350).contains(&bits), "differing bits: {}", bits);
    assert_eq!(bits, 270);
}

#[test]
fn collision_test() {
    let base: &[u8] = b"collision_test_base_string";
    let tries: usize = 200;
    let digests: Vec<[u64; 8]> = (0..tries)
        .map(|i| {
            let mut input = base.to_vec();
            input.push(i as u8);
            hash(&[input.as_slice()])
        })
        .collect();
    let mut collisions = 0;
    for i in 0..tries {
        for j in (i + 1)..tries {
            if digests[i] == digests[j] {
                println!("collision between inputs {} and {}", i, j);
                collisions += 1;
            }
        }
    }
    println!("collisions in {} tries: {}", tries, collisions);
}

#[test]
fn block_boundaries_are_observable() {
    let ab: &[u8] = b"ab";
    let cd: &[u8] = b"cd";
    let abcd: &[u8] = b"abcd";
    let split = hash(&[ab, cd]);
    let whole = hash(&[abcd]);
    assert_ne!(split, whole);
    assert_eq!(split[0], 0xf1f1ab0dcdce1c20);
    assert_eq!(whole[0], 0x72fa844ae74354e7);
}

#[test]
fn thousand_zero_bytes_digest() {
    let data = [0u8; 1000];
    assert_eq!(
        hash(&[&data[..]]),
        [
            0x85a23a9daf0f2762, 0xd7b2f2f048820909, 0x0e280ccd1d3d7daa, 0x2d01c329d038c2b7,
            0x053c3ee576dfefa1, 0x6fb7eaa7a004a8bb, 0xbf97bc458791646e, 0x226a173400b39461,
        ]
    );
}

#[test]
fn block_longer_than_sixty_four_bytes_wraps_chunks() {
    let data: Vec<u8> = (0..512usize).map(|i| (i % 256) as u8).collect();
    assert_eq!(
        hash(&[data.as_slice()]),
        [
            0x2d897e103ec38967, 0x535922e16f6d6801, 0x994101827f8f083e, 0x98ef5a62cde5b8c4,
            0x0f197d82f9d5a56e, 0x335d6ba0def739a5, 0xeb7c5f6d79c449e7, 0x4e1fcc67b3e9662d,
        ]
    );
}

#[test]
fn sbox_is_bijection_for_many_seeds() {
    let inputs: [&[u8]; 4] = [b"", b"abc", b"abcdefghij", b"determinism_test_input_data"];
    for seed in [0u64, 1, 0xFFFF_FFFF_FFFF_FFFF, 0x0123456789abcdef] {
        for input in inputs.iter() {
            assert_bijection(&generate_sbox(seed, input));
        }
    }
}

#[test]
fn sbox_known_values() {
    let t = generate_sbox(0, b"");
    assert_eq!(&t[..8], &[166, 14, 155, 234, 96, 12, 147, 89]);
    assert_eq!(t[255], 134);
    let t2 = generate_sbox(0x0123456789abcdef, b"abcdefghij");
    assert_eq!(&t2[..8], &[121, 75, 229, 131, 211, 195, 51, 46]);
}

#[test]
fn pad_empty_block() {
    assert_eq!(pad_block(b""), vec![0x80, 0, 0, 0, 0, 0, 0, 0]);
}

#[test]
fn pad_seven_bytes_adds_only_terminator() {
    let data = [1u8, 2, 3, 4, 5, 6, 7];
    assert_eq!(pad_block(&data), vec![1, 2, 3, 4, 5, 6, 7, 0x80]);
}

#[test]
fn pad_eight_bytes_adds_full_word() {
    let data = [9u8; 8];
    let padded = pad_block(&data);
    assert_eq!(padded.len(), 16);
    assert_eq!(&padded[..8], &data[..]);
    assert_eq!(padded[8], 0x80);
    assert!(padded[9..].iter().all(|&b| b == 0));
}

#[test]
fn pad_lengths_are_multiples_of_eight() {
    for n in 0..40usize {
        let data = vec![0xAAu8; n];
        let padded = pad_block(&data);
        assert_eq!(padded.len() % 8, 0);
        assert!(padded.len() >= n + 1 && padded.len() <= n + 8);
        assert_eq!(&padded[..n], &data[..]);
        assert_eq!(padded[n], 0x80);
        assert!(padded[n + 1..].iter().all(|&b| b == 0));
    }
}

#[test]
fn bit_mix_known_values() {
    assert_eq!(bit_mix(0, ROUND_CONSTANTS[0], b""), 0xae8f3bbd550e4f17);
    assert_eq!(bit_mix(0x1122334455667788, ROUND_CONSTANTS[5], b"abcdefg"), 0x46b8e16e2ebd03f8);
    assert_eq!(bit_mix(0x1122334455667788, ROUND_CONSTANTS[5], b"abcdef"), 0xbe82fbe2d6947974);
}

#[test]
fn byte_substitution_uses_table() {
    let t = generate_sbox(0, b"");
    assert_eq!(byte_substitute(0, &t), 166);
    assert_eq!(byte_substitute(255, &t), 134);
    assert_eq!(apply_byte_substitution(0x0001020304050607, &t), 0xa60e9bea600c9359);
}

#[test]
fn byte_substitution_by_identity_keeps_word() {
    let mut id = [0u8; 256];
    for (i, v) in id.iter_mut().enumerate() {
        *v = i as u8;
    }
    assert_eq!(apply_byte_substitution(0xdeadbeef01234567, &id), 0xdeadbeef01234567);
}

#[test]
fn permute_round_known_values() {
    let t = generate_sbox(0, b"");
    let mut s = [0u64; 8];
    permute_round(&mut s, 0, &t, b"");
    assert_eq!(
        s,
        [
            0x9df5ebf3bed67e82, 0x006e8d2877005631, 0xaade2a4f9098c466, 0xa79fb288d3512a03,
            0x657dea0671b7c263, 0x928368584110ebae, 0xc39b7ff5c47f939c, 0x1bbb39a36bb5c93f,
        ]
    );
    let mut s2 = [1u64, 2, 3, 4, 5, 6, 7, 8];
    permute_round(&mut s2, 30, &t, b"abcdefgh");
    assert_eq!(
        s2,
        [
            0x8dc253e3c5e12061, 0x887704a0f035844f, 0xc3a8e286d7f67a17, 0x036f6700e153826e,
            0x2cb84c4fea673ceb, 0xd4837e38dd55d40c, 0xb5030dded1796d32, 0x5975f939604f529f,
        ]
    );
}

#[test]
fn permute_known_values() {
    let mut s = [0u64; 8];
    permute(&mut s, &[0x80, 0, 0, 0, 0, 0, 0, 0]);
    assert_eq!(
        s,
        [
            0xd92e97dec48cc718, 0xb68a7aa416e2584a, 0x2b60e988cb3721e7, 0x301c8199003d4f7e,
            0xe213c3cbbb3116c4, 0x70d7b4e4bfc92554, 0x3a7aa1067f62a17e, 0x7ae92ecba91cf085,
        ]
    );
}
