use libium::text;

const SAMPLES: [&str; 24] = [
    "",
    "-",
    "--",
    "a-b",
    "a-",
    "-a",
    "sodium-fabric-0.5.8+mc1.20.jar",
    "sodium-fabric-0.5.8+mc1.20.jar.jar",
    ".jar",
    "jar",
    "mcmc1.20",
    "mc",
    "m",
    "cmc",
    "owner/repo",
    "a/b/c",
    "/",
    "Ünïcödé-ß.jar",
    "MiXeD Case",
    "mixed case",
    "+12",
    "-0",
    "0012",
    "1.20.1",
];

#[test]
fn split_cuts_as_std_does() {
    for sample in SAMPLES {
        for separator in ['-', '/', '.', 'a'] {
            let expected: Vec<String> = sample.split(separator).map(ToOwned::to_owned).collect();
            assert_eq!(text::text_split(sample, separator), expected, "{sample:?} at {separator:?}");
        }
    }
    assert_eq!(text::text_split("a-b--c", '-'), vec!["a", "b", "", "c"]);
    assert_eq!(text::text_split("", '-'), vec![""]);
}

#[test]
fn trimming_repeated_affixes_is_as_std_does() {
    for sample in SAMPLES {
        for affix in ["mc", ".jar", "a", "-", "jar"] {
            assert_eq!(text::trim_start_matches(sample, affix), sample.trim_start_matches(affix));
            assert_eq!(text::trim_end_matches(sample, affix), sample.trim_end_matches(affix));
        }
    }
    assert_eq!(text::trim_start_matches("mcmc1.20", "mc"), "1.20");
    assert_eq!(text::trim_end_matches("a.jar.jar", ".jar"), "a");
    assert_eq!(text::trim_end_matches("jar", ".jar"), "jar");
}

#[test]
fn suffixes_are_found_and_stripped_as_std_does() {
    for sample in SAMPLES {
        for suffix in [".jar", "", "jar", "-", "c", ".zip"] {
            assert_eq!(text::text_ends_with(sample, suffix), sample.ends_with(suffix));
            assert_eq!(
                text::strip_suffix(sample, suffix),
                sample.strip_suffix(suffix).map(ToOwned::to_owned)
            );
        }
    }
    assert_eq!(text::strip_suffix("a.jar.jar", ".jar"), Some("a.jar".to_string()));
}

#[test]
fn parts_are_found_as_std_does() {
    for sample in SAMPLES {
        for part in ["jar", "sources", "", "-", "1.20", "mc-mods", "ß", "a/b/c/d"] {
            assert_eq!(text::text_contains(sample, part), sample.contains(part), "{part:?} in {sample:?}");
        }
    }
    assert!(text::text_contains("https://www.curseforge.com/minecraft/mc-mods/jei", "mc-mods"));
    assert!(!text::text_contains("https://www.curseforge.com/minecraft/modpacks/x", "mc-mods"));
}

#[test]
fn strings_are_compared_as_std_does() {
    for a in SAMPLES {
        for b in SAMPLES {
            assert_eq!(text::str_eq(a, b), a == b);
            assert_eq!(text::eq_ignore_ascii_case(a, b), a.eq_ignore_ascii_case(b));
        }
    }
    assert!(text::eq_ignore_ascii_case("Sodium", "sODIUM"));
    assert!(!text::eq_ignore_ascii_case("Ü", "ü"));
    assert_eq!(text::to_ascii_lowercase('Q'), 'q');
    assert_eq!(text::to_ascii_lowercase('q'), 'q');
    assert_eq!(text::to_ascii_lowercase('['), '[');
    assert_eq!(text::to_ascii_lowercase('@'), '@');
}

#[test]
fn numbers_are_read_as_std_does() {
    let numbers = [
        "0", "-0", "+0", "12", "-12", "+12", "0012", "2147483647", "2147483648", "-2147483648",
        "-2147483649", "99999999999999999999999999", "-99999999999999999999999999", "", "-", "+",
        "--1", "+-1", "1 ", " 1", "1_000", "12a", "a12", "١٢", "18446744073709551615",
        "18446744073709551616", "+18446744073709551615", "4294967296",
    ];
    for number in numbers {
        assert_eq!(text::parse_i32(number), number.parse::<i32>().ok(), "{number:?}");
        assert_eq!(text::parse_u64(number), number.parse::<u64>().ok(), "{number:?}");
    }
    assert_eq!(text::parse_i32("306612"), Some(306612));
    assert_eq!(text::parse_i32("-2147483648"), Some(i32::MIN));
    assert_eq!(text::parse_u64("18446744073709551615"), Some(u64::MAX));
}

#[test]
fn the_tail_of_a_path_is_its_file_name() {
    for path in ["mods/sodium.jar", "sodium.jar", "a/b/c.zip", "resourcepacks/x.zip", "overrides/mods/y.jar"] {
        let expected = std::path::Path::new(path).file_name().unwrap().to_string_lossy().to_string();
        assert_eq!(text::text_after_last(path, '/'), expected);
    }
    assert_eq!(text::text_after_last("mods/", '/'), "");
    assert_eq!(text::text_after_last("", '/'), "");
    assert_eq!(text::text_after_last("a-b-c", '-'), "c");
}

#[test]
fn the_characters_of_a_string_are_listed_in_order() {
    assert_eq!(text::chars_of("aß✓"), vec!['a', 'ß', '✓']);
    assert_eq!(text::chars_of(""), Vec::<char>::new());
    let chars = text::chars_of("abcabc");
    let part = text::chars_of("bc");
    assert!(text::part_occurs_at(&chars, 1, &part));
    assert!(text::part_occurs_at(&chars, 4, &part));
    assert!(!text::part_occurs_at(&chars, 5, &part));
    assert!(!text::part_occurs_at(&chars, 0, &part));
    assert!(text::part_occurs_at(&chars, 6, &Vec::new()));
    assert!(!text::part_occurs_at(&chars, 7, &Vec::new()));
}

#[test]
fn numbers_are_written_as_std_does() {
    for number in [0u64, 1, 9, 10, 11, 99, 100, 12345, u32::MAX as u64, u64::MAX] {
        assert_eq!(text::u64_to_string(number), number.to_string());
    }
    for number in [0usize, 7, 10, 1000, usize::MAX] {
        assert_eq!(text::usize_to_string(number), number.to_string());
    }
    for number in [0i32, 1, -1, 10, -10, 306612, i32::MAX, i32::MIN] {
        assert_eq!(text::i32_to_string(number), number.to_string());
    }
}

#[test]
fn texts_are_ordered_as_std_does() {
    for a in SAMPLES {
        for b in SAMPLES {
            assert_eq!(text::text_comes_before(a, b), a < b, "{a:?} < {b:?}");
        }
    }
    assert!(text::text_comes_before("", "a"));
    assert!(!text::text_comes_before("a", ""));
    assert!(text::text_comes_before("Z", "a"));
    assert!(text::text_comes_before("z", "é"));
}

#[test]
fn texts_are_joined_as_std_does() {
    let parts: Vec<String> = vec!["a".to_string(), "".to_string(), "bc".to_string()];
    assert_eq!(text::join(&parts, ", "), parts.join(", "));
    assert_eq!(text::join(&parts[..1].to_vec(), ", "), "a");
    assert_eq!(text::join(&vec![], ", "), "");
    assert_eq!(text::join(&parts, ""), "abc");
}
