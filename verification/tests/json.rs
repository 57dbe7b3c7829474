use rustc_serialize::json::Json;
use voxel_mesh::error::VoxelError;
use voxel_mesh::loaders::json::is_readable;
use voxel_mesh::loaders::json::parse;
use voxel_mesh::loaders::json::MAX_DEPTH;
use voxel_mesh::loaders::json::MAX_EXPONENT_DIGITS;
use voxel_mesh::loaders::json::MAX_STRING;
use voxel_mesh::loaders::zoxel::load;

fn nested(depth: usize) -> String {
    format!("{}{}", "[".repeat(depth), "]".repeat(depth))
}

fn with_extra(extra: &str) -> String {
    format!(
        "{{\"creator\":\"t\",\"height\":16,\"width\":16,\"depth\":16,\"version\":1,\"frame1\":[[1,2,3,4]],\"extra\":{}}}",
        extra
    )
}

#[test]
fn limits_have_their_values() {
    assert_eq!(MAX_DEPTH, 16);
    assert_eq!(MAX_STRING, 4095);
    assert_eq!(MAX_EXPONENT_DIGITS, 9);
    assert!(MAX_DEPTH * MAX_STRING <= u16::MAX as usize);
}

#[test]
fn parse_reads_a_document() {
    let doc = parse("{\"a\":[1,2,{\"b\":\"c\"}],\"d\":-5}").unwrap();
    assert_eq!(doc, Json::from_str("{\"a\":[1,2,{\"b\":\"c\"}],\"d\":-5}").unwrap());
    assert_eq!(doc.find("a").unwrap().as_array().unwrap().len(), 3);
    assert_eq!(doc.find("a").unwrap().as_array().unwrap()[1].as_u64(), Some(2));
    assert_eq!(doc.find("d").unwrap().as_u64(), None);
    assert_eq!(doc.find("e"), None);
    let inner = &doc.find("a").unwrap().as_array().unwrap()[2];
    assert_eq!(inner.find("b").unwrap().as_string(), Some("c"));
}

#[test]
fn parse_rejects_what_is_not_json() {
    assert_eq!(parse("").err(), Some(VoxelError::Parse));
    assert_eq!(parse("[1,2").err(), Some(VoxelError::Parse));
    assert_eq!(parse("{\"a\" 1}").err(), Some(VoxelError::Parse));
    assert_eq!(parse("[1] 2").err(), Some(VoxelError::Parse));
    assert_eq!(parse("\"open").err(), Some(VoxelError::Parse));
}

#[test]
fn nesting_is_read_up_to_the_limit() {
    assert!(is_readable(&nested(16)));
    assert!(parse(&nested(16)).is_ok());
    assert!(!is_readable(&nested(17)));
    assert_eq!(parse(&nested(17)).err(), Some(VoxelError::Parse));
    assert_eq!(parse(&nested(100000)).err(), Some(VoxelError::Parse));
    assert_eq!(parse(&"[".repeat(100000)).err(), Some(VoxelError::Parse));
    assert_eq!(parse(&"{\"a\":".repeat(100000)).err(), Some(VoxelError::Parse));
}

#[test]
fn nesting_counts_what_is_open_at_one_time() {
    let wide = format!("[{}]", vec![nested(15); 1000].join(","));
    assert!(is_readable(&wide));
    assert_eq!(parse(&wide).unwrap().as_array().unwrap().len(), 1000);
}

#[test]
fn brackets_inside_strings_do_not_nest() {
    let text = format!("[\"{}\"]", "[{".repeat(500));
    assert!(is_readable(&text));
    assert!(parse(&text).is_ok());
    let escaped = format!("[\"\\\"{}\\\\\"]", "[".repeat(500));
    assert!(is_readable(&escaped));
    assert!(parse(&escaped).is_ok());
}

#[test]
fn strings_are_read_up_to_the_limit() {
    let fits = format!("\"{}\"", "a".repeat(4095));
    assert!(is_readable(&fits));
    assert_eq!(parse(&fits).unwrap().as_string().map(|s| s.len()), Some(4095));
    let long = format!("\"{}\"", "a".repeat(4096));
    assert!(!is_readable(&long));
    assert_eq!(parse(&long).err(), Some(VoxelError::Parse));
}

#[test]
fn strings_are_measured_in_bytes() {
    let fits = format!("\"{}\"", "\u{e9}".repeat(2047));
    assert!(is_readable(&fits));
    assert!(parse(&fits).is_ok());
    let long = format!("\"{}\"", "\u{e9}".repeat(2048));
    assert!(!is_readable(&long));
    let escapes = format!("\"{}\"", "\\n".repeat(2048));
    assert!(!is_readable(&escapes));
}

#[test]
fn long_keys_are_not_read() {
    let text = format!("{{\"{}\u{e9}\":1}}", "k".repeat(65535));
    assert_eq!(parse(&text).err(), Some(VoxelError::Parse));
    let fits = format!("{{\"{}\":1}}", "k".repeat(4095));
    assert!(parse(&fits).unwrap().find(&"k".repeat(4095)).is_some());
}

#[test]
fn keys_of_open_objects_fit_together() {
    let key = "k".repeat(4095);
    let mut text = String::new();
    for _ in 0..16 {
        text.push_str(&format!("{{\"{}\":", key));
    }
    text.push_str("7");
    text.push_str(&"}".repeat(16));
    assert!(is_readable(&text));
    let mut doc = &parse(&text).unwrap();
    for _ in 0..16 {
        doc = doc.find(&key).unwrap();
    }
    assert_eq!(doc.as_u64(), Some(7));
}

#[test]
fn exponents_are_read_up_to_the_limit() {
    assert!(is_readable("1e000000002"));
    assert!(parse("1e000000002").is_ok());
    assert!(is_readable("[1E+000000002, 2e-000000003]"));
    assert!(!is_readable("1e0000000002"));
    assert_eq!(parse("1e0000000002").err(), Some(VoxelError::Parse));
    assert_eq!(parse("1e99999999999999999999999999").err(), Some(VoxelError::Parse));
    assert_eq!(parse("[1.5E-99999999999999999999999999]").err(), Some(VoxelError::Parse));
}

#[test]
fn digits_elsewhere_are_not_counted() {
    assert!(is_readable("[12345678901234567890, 0.12345678901234567890, true, false]"));
    assert!(is_readable("\"e12345678901234567890\""));
    assert!(parse("\"e12345678901234567890\"").is_ok());
    assert!(parse("[true,123456789012,false,123456789012]").is_ok());
}

#[test]
fn load_reads_a_model_within_the_limits() {
    let creator = "c".repeat(4095);
    let text = format!(
        "{{\"creator\":\"{}\",\"height\":16,\"width\":16,\"depth\":16,\"version\":1,\"frame1\":[[1,2,3,4]],\"extra\":{}}}",
        creator,
        nested(15)
    );
    let (palette, block) = load(&text).unwrap();
    assert_eq!(palette.len(), 1);
    assert_eq!(block.get(1, 2, 3), Ok(1));
}

#[test]
fn load_rejects_a_text_beyond_the_limits() {
    assert!(load(&with_extra("[]")).is_ok());
    assert_eq!(load(&with_extra(&nested(16))).err(), Some(VoxelError::Parse));
    assert_eq!(
        load(&with_extra(&format!("\"{}\"", "s".repeat(4096)))).err(),
        Some(VoxelError::Parse)
    );
    assert_eq!(load(&with_extra("1e1234567890")).err(), Some(VoxelError::Parse));
}

#[test]
fn an_object_that_ends_on_a_comma_is_not_read() {
    assert!(!is_readable("[{\"k\":{\"b\":1,},5}]"));
    assert_eq!(parse("[{\"k\":{\"b\":1,},5}]").err(), Some(VoxelError::Parse));
    assert_eq!(parse("{\"b\":1,}").err(), Some(VoxelError::Parse));
    assert_eq!(parse("{\"b\":1 , \n\t\r }").err(), Some(VoxelError::Parse));
    assert_eq!(parse("[{\"a\":[{\"b\":2,},\"k\":5]}]").err(), Some(VoxelError::Parse));
    assert!(is_readable("[\",}\", {\"a\":\",}\"}]"));
    assert!(parse("[\",}\", {\"a\":\",}\"}]").is_ok());
    assert!(parse("{\"a\":1,\"b\":{}}").is_ok());
    assert_eq!(parse("[1,]").err(), Some(VoxelError::Parse));
}

/// A sequence of numbers that looks random and is the same on every run.
struct Numbers(u64);

impl Numbers {
    fn next(&mut self) -> u64 {
        self.0 = self.0.wrapping_mul(6364136223846793005).wrapping_add(1442695040888963407);
        self.0 >> 33
    }

    fn below(&mut self, n: usize) -> usize {
        (self.next() % n as u64) as usize
    }
}

const PIECES: [&str; 28] = [
    "{", "}", "[", "]", ",", ":", "\"", "\\", "e", "E", "+", "-", "0", "1", "9", ".", " ", "\n",
    "u", "true", "false", "null", "\"k\"", "\"k\":", "12", "\\u00e9", "\\ud83d\\ude00", "\u{e9}",
];

fn random_value(numbers: &mut Numbers, depth: usize) -> String {
    match numbers.below(if depth == 0 { 6 } else { 8 }) {
        0 => "null".to_string(),
        1 => "true".to_string(),
        2 => format!("{}", numbers.next()),
        3 => format!("-{}.{}e-{}", numbers.below(100), numbers.below(100), numbers.below(30)),
        4 => format!("\"{}\"", "x\\\"[{,}".repeat(numbers.below(3))),
        5 => "\"\"".to_string(),
        6 => {
            let items: Vec<String> =
                (0..numbers.below(4)).map(|_| random_value(numbers, depth - 1)).collect();
            format!("[{}]", items.join(","))
        }
        _ => {
            let members: Vec<String> = (0..numbers.below(4))
                .map(|i| format!("\"k{}\" : {}", i, random_value(numbers, depth - 1)))
                .collect();
            format!("{{{}}}", members.join(" , "))
        }
    }
}

#[test]
fn every_readable_jumble_is_parsed_or_refused() {
    let mut numbers = Numbers(1);
    let mut read = 0;
    for _ in 0..300000 {
        let mut text = String::new();
        for _ in 0..numbers.below(14) {
            text.push_str(PIECES[numbers.below(PIECES.len())]);
        }
        if parse(&text).is_ok() {
            read += 1;
        }
    }
    assert!(read > 0);
}

#[test]
fn every_readable_damaged_document_is_parsed_or_refused() {
    let mut numbers = Numbers(2);
    let mut read = 0;
    for _ in 0..60000 {
        let whole = random_value(&mut numbers, 4);
        assert!(parse(&whole).is_ok());
        let mut chars: Vec<char> = whole.chars().collect();
        for _ in 0..1 + numbers.below(3) {
            let at = numbers.below(chars.len() + 1);
            let piece: Vec<char> = PIECES[numbers.below(PIECES.len())].chars().collect();
            match numbers.below(4) {
                0 => {
                    chars.splice(at..at, piece);
                }
                1 => {
                    if at < chars.len() {
                        chars.remove(at);
                    }
                }
                2 => {
                    if at < chars.len() {
                        chars.splice(at..at + 1, piece);
                    }
                }
                _ => {
                    let closers: Vec<usize> =
                        (0..chars.len()).filter(|i| chars[*i] == '}' || chars[*i] == ']').collect();
                    if !closers.is_empty() {
                        chars.insert(closers[numbers.below(closers.len())], ',');
                    }
                }
            }
        }
        let damaged: String = chars.into_iter().collect();
        if parse(&damaged).is_ok() {
            read += 1;
        }
    }
    assert!(read > 0);
}

#[test]
fn every_readable_document_near_the_limits_is_parsed() {
    let mut numbers = Numbers(3);
    for _ in 0..300 {
        let depth = 14 + numbers.below(4);
        let key = "k".repeat(4093 + numbers.below(4));
        let digits = "0".repeat(7 + numbers.below(4));
        let mut text = String::new();
        for level in 0..depth {
            if level % 2 == 0 || numbers.below(3) == 0 {
                text.push_str(&format!("{{\"{}\":", key));
            } else {
                text.push('[');
            }
        }
        text.push_str(&format!("1e{}1", digits));
        let closers: Vec<char> = text
            .chars()
            .filter(|c| *c == '{' || *c == '[')
            .map(|c| if c == '{' { '}' } else { ']' })
            .collect();
        text.extend(closers.iter().rev());
        let within = depth <= 16 && key.len() <= 4095 && digits.len() + 1 <= 9;
        assert_eq!(is_readable(&text), within);
        assert_eq!(parse(&text).is_ok(), within);
    }
}
