use ground_station::binary64::{round_ratio, Binary64};
use ground_station::json::{parse_json, telemetry_from_json, Json};
use ground_station::path::{extension, file_name, join, parent};
use ground_station::text::{
    align_left, align_right, contains, decimal, lines, order_texts, padded_decimal,
    same_ignoring_case, signed_decimal, split, starts_with, trim, trim_end_matches, trimmed_lines,
    TextOrder,
};
use ground_station::textmap::TextMap;

#[test]
fn texts_agree_with_the_standard_library() {
    for s in ["", " a ", "\u{3000}日本\u{a0}", "a\r\n\nb\rc\n", "x\n", "\r\n", "/a//", "é", "\u{200b}x"] {
        assert_eq!(trim(s), s.trim());
        assert_eq!(lines(s), s.lines().collect::<Vec<_>>());
        assert_eq!(split(s, '/'), s.split('/').collect::<Vec<_>>());
        assert_eq!(trim_end_matches(s, '/'), s.trim_end_matches('/'));
        assert_eq!(
            trimmed_lines(s),
            s.lines().map(|l| l.trim()).filter(|l| !l.is_empty()).collect::<Vec<_>>()
        );
        for t in ["", "a", "日", "\r", "/", "b\r"] {
            assert_eq!(contains(s, t), s.contains(t));
            assert_eq!(starts_with(s, t), s.starts_with(t));
            assert_eq!(same_ignoring_case(s, t), s.eq_ignore_ascii_case(t));
            let order = match s.cmp(t) {
                std::cmp::Ordering::Less => TextOrder::Before,
                std::cmp::Ordering::Equal => TextOrder::Same,
                std::cmp::Ordering::Greater => TextOrder::After,
            };
            assert_eq!(order_texts(s, t), order);
        }
        assert_eq!(align_left(s, 5), format!("{:<5}", s));
        assert_eq!(align_right(s, 5), format!("{:>5}", s));
    }
    assert!(same_ignoring_case("WaV", "wAv"));
}

#[test]
fn paths_agree_with_the_standard_library() {
    for p in ["", "a", "a/", "a/.", "a/..", "/", ".", "..", "a/b.png", "a/.png", "a/.x.png", "a.",
        "./x.tar.gz", "a//b/", "../a", "a.b/.", "...", "..a", "//", "/.", "./.", "a/./.", "/a", "//a/", "a/b//./"] {
        let std_path = std::path::Path::new(p);
        assert_eq!(file_name(p), std_path.file_name().map(|s| s.to_str().unwrap()));
        assert_eq!(extension(p), std_path.extension().map(|s| s.to_str().unwrap()));
        assert_eq!(join(p, "n"), std_path.join("n").to_str().unwrap());
        assert_eq!(parent(p), std_path.parent().map(|s| s.to_str().unwrap()));
        let inner = join(p, "image.png");
        let std_inner = std::path::Path::new(&inner);
        assert_eq!(parent(&inner), std_inner.parent().map(|s| s.to_str().unwrap()));
    }
}

#[test]
fn numbers_are_written_in_decimal() {
    assert_eq!(decimal(0), "0");
    assert_eq!(decimal(u64::MAX), u64::MAX.to_string());
    assert_eq!(signed_decimal(i64::MIN), i64::MIN.to_string());
    assert_eq!(padded_decimal(7, 3), "007");
    assert_eq!(padded_decimal(1234, 2), "34");
}

fn number(x: f64) -> Binary64 {
    Binary64::from_bits(x.to_bits()).unwrap()
}

const NUMBERS: [f64; 24] = [
    0.0, -0.0, 1.0, -0.04, 0.25, 2.5, 0.5, 1.5, 52.5, 52.45, 0.15, 1234.5678, -89.96, 1e-7, 1e16,
    -1e30, 3.048e15, f64::MAX, f64::MIN_POSITIVE, 5e-324, -2.5, 137.1, 9.223372036854775e18,
    f64::INFINITY,
];

#[test]
fn binary64_numbers_are_written_in_decimal() {
    for x in NUMBERS {
        assert_eq!(number(x).fixed(0), format!("{:.0}", x));
        assert_eq!(number(x).fixed(1), format!("{:.1}", x));
        assert_eq!(number(x).fixed(4), format!("{:.4}", x));
        assert_eq!(number(-x).fixed(6), format!("{:.6}", -x));
    }
    assert_eq!(number(0.15).fixed(1), "0.1");
    assert_eq!(number(52.45).fixed(1), "52.5");
    assert_eq!(number(1e16).fixed(0), "10000000000000000");
    for k in 0..3_000u64 {
        let tenth = (k * 10 + 5) as f64 / 100.0;
        assert_eq!(number(tenth).fixed(1), format!("{:.1}", tenth));
        let hundredth = -((k * 10 + 5) as f64 / 1000.0);
        assert_eq!(number(hundredth).fixed(2), format!("{:.2}", hundredth));
    }
    assert_eq!(round_ratio(5, 2), 2);
    assert_eq!(round_ratio(7, 2), 4);
}

#[test]
fn binary64_numbers_are_computed_with() {
    for x in NUMBERS {
        for y in NUMBERS {
            assert_eq!(number(x).order() < number(y).order(), x < y);
            assert_eq!(number(x).order() == number(y).order(), x == y);
            if y != 0.0 && y.is_finite() {
                assert_eq!(number(x).times(number(y)), number(x * y));
                assert_eq!(number(x).over(number(y)), number(x / y));
            }
        }
        assert_eq!(number(x).truncate(), x as i64);
        assert_eq!(number(x).round_away(), x.round() as i64);
    }
    for n in [0, 1, 3, 1_000_000, (1 << 53) + 1, (1 << 54) + 3, u64::MAX] {
        assert_eq!(Binary64::integer(n as u128), number(n as f64));
    }
    assert_eq!(Binary64::ratio(3_048, 10_000), number(0.3048));
    assert_eq!(Binary64::ratio(1_852, 1_000), number(1.852));
    assert_eq!(Binary64::ratio(34, 10), number(3.4));
    assert_eq!(Binary64::ratio(1, 3), number(1.0 / 3.0));
    assert_eq!(Binary64::from_bits(f64::NAN.to_bits()), None);
}

#[test]
fn json_values_are_read() {
    let doc = parse_json(r#"{"b": [1, "x"], "a": {"k": 1e30}, "n": -0.5, "t": "é", "z": null}"#).unwrap();
    match doc.get("a").unwrap().get("k").unwrap() {
        Json::Number(n, bits) => {
            assert_eq!(n, "1e+30");
            assert_eq!(*bits, Some(1e30f64.to_bits()));
        }
        v => panic!("{:?}", v),
    }
    assert_eq!(doc.get_str("t"), Some("é"));
    assert_eq!(doc.get_str("n"), None);
    assert!(doc.get("q").is_none());
    assert!(matches!(doc.get("z"), Some(Json::Null)));
    assert!(matches!(doc.get("b"), Some(Json::List(v)) if v.len() == 2));
    assert!(doc.get("b").unwrap().get("x").is_none());
    assert!(parse_json("{\"a\": }").is_none());
    assert_eq!(telemetry_from_json(&doc).unwrap().len(), 5);
    assert_eq!(telemetry_from_json(&Json::Object(vec![])), None);
}

#[test]
fn tables_hold_each_key_once() {
    let mut m: TextMap<u32> = TextMap::new();
    m.insert("a", 1);
    m.insert("b", 2);
    m.insert("a", 3);
    assert_eq!(m.len(), 2);
    assert_eq!(m.get("a"), Some(&3));
    assert_eq!(m.get("c"), None);
    m.remove_at(0);
    assert_eq!(m.get("a"), None);
    assert_eq!(*m.value_at(0), 2);
}
