use fnv_hasher::constants::{constants_for, FnvError, Width};
use fnv_hasher::fnv::{hash, Variant};
use fnv_hasher::hex::limbs_to_hex;
use fnv_hasher::select::{hash_named, hasher_at, HASHER_COUNT};
use fnv_hasher::state::TemplateApp;
use fnv_hasher::wide::{mul_wrapping, xor_byte};

const WIDTHS: [Width; 6] = [
    Width::W32,
    Width::W64,
    Width::W128,
    Width::W256,
    Width::W512,
    Width::W1024,
];
const VARIANTS: [Variant; 3] = [Variant::Fnv0, Variant::Fnv1, Variant::Fnv1a];

#[test]
fn known_answer_fnv1a_32_empty() {
    assert_eq!(hash(Variant::Fnv1a, Width::W32, b"").to_hex(), "811C9DC5");
}

#[test]
fn known_answer_fnv1a_32_a() {
    assert_eq!(hash(Variant::Fnv1a, Width::W32, b"a").to_hex(), "E40C292C");
}

#[test]
fn known_answer_fnv1_32_empty() {
    assert_eq!(hash(Variant::Fnv1, Width::W32, b"").to_hex(), "811C9DC5");
}

#[test]
fn known_answer_fnv1a_64_empty() {
    assert_eq!(
        hash(Variant::Fnv1a, Width::W64, b"").to_hex(),
        "CBF29CE484222325"
    );
}

#[test]
fn empty_input_gives_seed_for_every_pair() {
    for w in WIDTHS {
        let (_, basis) = constants_for(w);
        let zeros = "0".repeat(w.bits() as usize / 4);
        assert_eq!(hash(Variant::Fnv0, w, b"").to_hex(), zeros);
        assert_eq!(hash(Variant::Fnv1, w, b"").limbs(), &basis);
        assert_eq!(hash(Variant::Fnv1a, w, b"").limbs(), &basis);
    }
}

#[test]
fn offset_basis_1024_digits() {
    assert_eq!(
        hash(Variant::Fnv1, Width::W1024, b"").to_hex(),
        "0000000000000000005F7A76758ECC4D32E56D5A591028B74B29FC4223FDADA16C3BF34EDA3674DA9A21D9000000000000000000000000000000000000000000000000000000000000000000000000000000000000000000000000000004C6D7EB6E73802734510A555F256CC005AE556BDE8CC9C6A93B21AFF4B16C71EE90B3"
    );
}

#[test]
fn hashing_is_deterministic() {
    for w in WIDTHS {
        for v in VARIANTS {
            let a = hash(v, w, b"determinism");
            let b = hash(v, w, b"determinism");
            assert_eq!(a.limbs(), b.limbs());
            assert_eq!(a.to_hex(), b.to_hex());
        }
    }
}

#[test]
fn digest_stays_within_width() {
    for w in WIDTHS {
        for v in VARIANTS {
            let d = hash(v, w, b"\xff\xff\xff\xff\xff\xff\xff\xff");
            assert_eq!(d.limbs().len() * 32, w.bits() as usize);
            assert_eq!(d.to_hex().len(), w.bits() as usize / 4);
            assert_eq!(d.width(), w);
        }
    }
}

#[test]
fn one_byte_change_changes_fnv1a_digest() {
    let corpus: [&[u8]; 4] = [b"a", b"ab", b"abc", b"hello"];
    for w in WIDTHS {
        for input in corpus {
            let base = hash(Variant::Fnv1a, w, input).to_hex();
            for pos in 0..input.len() {
                let mut changed = input.to_vec();
                changed[pos] ^= 1;
                assert_ne!(hash(Variant::Fnv1a, w, &changed).to_hex(), base);
            }
        }
    }
}

#[test]
fn fnv1_and_fnv1a_differ_on_ab() {
    assert_ne!(
        hash(Variant::Fnv1, Width::W32, b"ab").to_hex(),
        hash(Variant::Fnv1a, Width::W32, b"ab").to_hex()
    );
    assert_eq!(hash(Variant::Fnv1, Width::W32, b"ab").to_hex(), "70772D38");
    assert_eq!(hash(Variant::Fnv1a, Width::W32, b"ab").to_hex(), "4D2505CA");
}

#[test]
fn width_from_bits() {
    assert_eq!(Width::from_bits(32), Ok(Width::W32));
    assert_eq!(Width::from_bits(1024), Ok(Width::W1024));
    assert_eq!(Width::from_bits(48), Err(FnvError::UnsupportedWidth));
    assert_eq!(Width::from_bits(0), Err(FnvError::UnsupportedWidth));
}

#[test]
fn variant_from_name() {
    assert_eq!(Variant::from_name("fnv0"), Ok(Variant::Fnv0));
    assert_eq!(Variant::from_name("fnv1"), Ok(Variant::Fnv1));
    assert_eq!(Variant::from_name("fnv1a"), Ok(Variant::Fnv1a));
    assert_eq!(Variant::from_name("fnv2"), Err(FnvError::UnsupportedVariant));
    assert_eq!(Variant::from_name(""), Err(FnvError::UnsupportedVariant));
}

#[test]
fn hash_named_errors_and_success() {
    assert_eq!(
        hash_named("fnv3", 32, b"a").map(|d| d.to_hex()),
        Err(FnvError::UnsupportedVariant)
    );
    assert_eq!(
        hash_named("fnv1a", 48, b"a").map(|d| d.to_hex()),
        Err(FnvError::UnsupportedWidth)
    );
    assert_eq!(
        hash_named("fnv3", 48, b"a").map(|d| d.to_hex()),
        Err(FnvError::UnsupportedVariant)
    );
    assert_eq!(
        hash_named("fnv1a", 64, b"foobar").map(|d| d.to_hex()),
        Ok("85944171F73967E8".to_string())
    );
}

#[test]
fn hasher_list_order() {
    assert_eq!(HASHER_COUNT, 18);
    assert_eq!(hasher_at(0), Some((Variant::Fnv0, Width::W32)));
    assert_eq!(hasher_at(2), Some((Variant::Fnv1a, Width::W32)));
    assert_eq!(hasher_at(4), Some((Variant::Fnv1, Width::W64)));
    assert_eq!(hasher_at(17), Some((Variant::Fnv1a, Width::W1024)));
    assert_eq!(hasher_at(18), None);
}

#[test]
fn template_app_default_and_output() {
    let mut app = TemplateApp::default();
    assert_eq!(app.hasher, 0);
    assert_eq!(app.input, "");
    assert_eq!(app.output(), Some("0x00000000".to_string()));
    app.hasher = 2;
    app.input = "a".to_string();
    assert_eq!(app.output(), Some("0xE40C292C".to_string()));
    app.hasher = 18;
    assert_eq!(app.output(), None);
}

#[test]
fn mul_wrapping_drops_high_limbs() {
    let a = vec![0xFFFF_FFFFu32, 0xFFFF_FFFF];
    let b = vec![2u32, 0];
    assert_eq!(mul_wrapping(&a, &b), vec![0xFFFF_FFFE, 0xFFFF_FFFF]);
    let c = vec![0u32, 1];
    assert_eq!(mul_wrapping(&c, &c), vec![0, 0]);
    let d = vec![0x1234_5678u32];
    let e = vec![0x10u32];
    assert_eq!(mul_wrapping(&d, &e), vec![0x2345_6780]);
}

#[test]
fn xor_byte_touches_low_bits_only() {
    let mut x = vec![0xAABB_CCDDu32, 0x1111_1111];
    xor_byte(&mut x, 0xFF);
    assert_eq!(x, vec![0xAABB_CC22, 0x1111_1111]);
}

#[test]
fn limbs_render_most_significant_first() {
    assert_eq!(limbs_to_hex(&vec![0x0000_00AB, 0x0102_0304]), "01020304000000AB");
    assert_eq!(limbs_to_hex(&vec![]), "");
}
