//! Whole invocations, as the command line makes them, against a store kept
//! in memory: an ordered map from byte keys to byte values.
use rdbrowser::batch::BatchError;
use rdbrowser::codec::HexFlags;
use rdbrowser::command::{create, Command, Reply, Request};
use rdbrowser::hex::DecodeError;
use std::collections::BTreeMap;

type Store = BTreeMap<Vec<u8>, Vec<u8>>;

#[derive(Debug, Default)]
struct Outcome {
    stdout: String,
    stderr: String,
    dump_file: String,
    failed: bool,
}

fn request(argv: &[&str]) -> Request {
    let mut flags = HexFlags { hex: false, key_hex: false, value_hex: false };
    let mut args = Vec::new();
    let (mut from, mut to, mut max_keys, mut output) = (None, None, None, None);
    let mut i = 1;
    while i < argv.len() {
        match argv[i] {
            "--hex" => flags.hex = true,
            "--key_hex" => flags.key_hex = true,
            "--value_hex" => flags.value_hex = true,
            "--from" => {
                i += 1;
                from = Some(argv[i].to_string());
            }
            "--to" => {
                i += 1;
                to = Some(argv[i].to_string());
            }
            "--max_keys" => {
                i += 1;
                max_keys = Some(argv[i].parse::<usize>().unwrap());
            }
            "--output" => {
                i += 1;
                output = Some(argv[i].to_string());
            }
            a => args.push(a.to_string()),
        }
        i += 1;
    }
    Request { operation: argv[0].to_string(), args, from, to, max_keys, output, flags }
}

fn fail(out: &mut Outcome, message: String) {
    out.stderr.push_str(&format!("Failed: {}\n", message));
    out.failed = true;
}

fn decode_message(e: DecodeError) -> String {
    format!("invalid hexadecimal input: {}", e.input())
}

fn run(store: &mut Store, argv: &[&str]) -> Outcome {
    let mut out = Outcome::default();
    let command = match create(request(argv)) {
        Ok(c) => c,
        Err(e) => {
            fail(&mut out, format!("{:?}", e));
            return out;
        }
    };
    let ok = |out: &mut Outcome| out.stdout.push_str("OK\n");
    match command {
        Command::Get(g) => match g.plan() {
            Ok(k) => match g.reply(store.get(&k).cloned()) {
                Reply::Stdout(s) => out.stdout.push_str(&format!("{}\n", s)),
                Reply::Stderr(s) => out.stderr.push_str(&format!("{}\n", s)),
            },
            Err(e) => fail(&mut out, decode_message(e)),
        },
        Command::Put(p) => match p.plan() {
            Ok((k, v)) => {
                store.insert(k, v);
                ok(&mut out);
            }
            Err(e) => fail(&mut out, decode_message(e)),
        },
        Command::Delete(d) => match d.plan() {
            Ok(k) => {
                store.remove(&k);
                ok(&mut out);
            }
            Err(e) => fail(&mut out, decode_message(e)),
        },
        Command::BatchPut(b) => match b.plan() {
            Ok(entries) => {
                for (k, v) in entries {
                    store.insert(k, v);
                }
                ok(&mut out);
            }
            Err(BatchError::OddTokenCount(n)) => fail(
                &mut out,
                format!("Keys and values bnumber has to be even, given {}", n),
            ),
            Err(BatchError::Decode(e)) => fail(&mut out, decode_message(e)),
        },
        Command::DeleteRange(d) => match d.plan() {
            Ok((from, to)) => {
                store.retain(|k, _| !(*k >= from && *k < to));
                ok(&mut out);
            }
            Err(e) => fail(&mut out, decode_message(e)),
        },
        Command::Scan(s) => match s.plan() {
            Ok(mut cursor) => {
                let start = cursor.start().map(|s| s.to_vec()).unwrap_or_default();
                for (k, v) in store.range(start..) {
                    match cursor.next(k, v) {
                        Some(line) => out.stdout.push_str(&format!("{}\n", line)),
                        None => break,
                    }
                }
            }
            Err(e) => fail(&mut out, decode_message(e)),
        },
        Command::Dump(d) => match d.plan() {
            Ok(mut cursor) => {
                let start = cursor.start().map(|s| s.to_vec()).unwrap_or_default();
                for (k, v) in store.range(start..) {
                    match cursor.next(k, v) {
                        Some(line) => out.dump_file.push_str(&format!("{}\n", line)),
                        None => break,
                    }
                }
            }
            Err(e) => fail(&mut out, decode_message(e)),
        },
        Command::CheckConsistency(_) => ok(&mut out),
    }
    out
}

fn four_pairs(store: &mut Store) {
    let kv = ["1111", "1111", "2222", "2222", "3333", "3333", "4444", "4444"];
    let mut argv = vec!["batchput"];
    argv.extend_from_slice(&kv);
    assert_eq!(run(store, &argv).stdout, "OK\n");
}

#[test]
fn basic_put_and_get() {
    let mut store = Store::new();
    let (key, value) = ("hello", "world");
    assert_eq!(run(&mut store, &["put", key, value]).stdout, "OK\n");
    let out = run(&mut store, &["get", key]);
    assert_eq!(out.stdout, format!("{}\n", value));
    assert!(!out.failed);
}

#[test]
fn hex_put_and_get() {
    let mut store = Store::new();
    let (key, value) = ("0x68656c6c6f", "776f726c64");
    assert_eq!(run(&mut store, &["put", "--hex", key, value]).stdout, "OK\n");
    let out = run(&mut store, &["get", "--hex", key]);
    assert_eq!(out.stdout, format!("0x{}\n", value));
    assert!(!out.failed);
}

#[test]
fn key_hex_put_and_get() {
    let mut store = Store::new();
    let (key, value) = ("68656c6c6f", "world");
    assert_eq!(run(&mut store, &["put", "--key_hex", key, value]).stdout, "OK\n");
    let out = run(&mut store, &["get", "--key_hex", key]);
    assert_eq!(out.stdout, format!("{}\n", value));
    assert_eq!(run(&mut store, &["get", "hello"]).stdout, "world\n");
}

#[test]
fn value_hex_put_and_get() {
    let mut store = Store::new();
    let (key, value) = ("hello", "776f726c64");
    assert_eq!(run(&mut store, &["put", "--value_hex", key, value]).stdout, "OK\n");
    let out = run(&mut store, &["get", "--value_hex", key]);
    assert_eq!(out.stdout, format!("0x{}\n", value));
    assert_eq!(run(&mut store, &["get", key]).stdout, "world\n");
}

#[test]
fn basic_delete() {
    let mut store = Store::new();
    let (key, value) = ("hello", "world");
    assert_eq!(run(&mut store, &["put", key, value]).stdout, "OK\n");
    assert_eq!(run(&mut store, &["get", key]).stdout, format!("{}\n", value));
    assert_eq!(run(&mut store, &["delete", key]).stdout, "OK\n");
    let out = run(&mut store, &["get", key]);
    assert_eq!(out.stderr, "Not Found\n");
    assert_eq!(out.stdout, "");
    assert!(!out.failed);
}

#[test]
fn multiple_word_put_get_delete() {
    let mut store = Store::new();
    let (key, value) = ("aaaa bbbb cccc", "dddd eeee fffff");
    assert_eq!(run(&mut store, &["put", key, value]).stdout, "OK\n");
    assert_eq!(run(&mut store, &["get", key]).stdout, format!("{}\n", value));
    assert_eq!(run(&mut store, &["delete", key]).stdout, "OK\n");
    assert_eq!(run(&mut store, &["get", key]).stderr, "Not Found\n");
}

#[test]
fn batchput_and_get() {
    let mut store = Store::new();
    let kv = ["1111", "1111", "2222", "2222", "3333", "3333", "4444", "4444"];
    four_pairs(&mut store);
    for i in (0..kv.len()).step_by(2) {
        assert_eq!(run(&mut store, &["get", kv[i]]).stdout, format!("{}\n", kv[i + 1]));
    }
}

#[test]
fn batchput_multi_word_and_get() {
    let mut store = Store::new();
    let kv = ["hey hey", "hoy hoy", "bla bla", "tra tra"];
    let mut argv = vec!["batchput"];
    argv.extend_from_slice(&kv);
    assert_eq!(run(&mut store, &argv).stdout, "OK\n");
    for i in (0..kv.len()).step_by(2) {
        assert_eq!(run(&mut store, &["get", kv[i]]).stdout, format!("{}\n", kv[i + 1]));
    }
}

#[test]
fn batchput_and_get_hex() {
    let cases: [(&str, [&str; 8], &str); 3] = [
        (
            "--key_hex",
            ["31313131", "1111", "32323232", "2222", "33333333", "3333", "34343434", "4444"],
            "{}",
        ),
        (
            "--value_hex",
            ["1111", "31313131", "2222", "32323232", "3333", "33333333", "4444", "34343434"],
            "0x{}",
        ),
        (
            "--hex",
            [
                "31313131", "31313131", "32323232", "32323232", "33333333", "33333333",
                "34343434", "34343434",
            ],
            "0x{}",
        ),
    ];
    for (flag, kv, shape) in cases.iter() {
        let mut store = Store::new();
        let mut argv = vec!["batchput", *flag];
        argv.extend_from_slice(kv);
        assert_eq!(run(&mut store, &argv).stdout, "OK\n");
        for i in (0..kv.len()).step_by(2) {
            let expected = shape.replace("{}", kv[i + 1]);
            assert_eq!(run(&mut store, &["get", *flag, kv[i]]).stdout, format!("{}\n", expected));
        }
    }
}

#[test]
fn batchput_wrong_input() {
    let mut store = Store::new();
    let kv = ["1111", "1111", "2222"];
    let mut argv = vec!["batchput"];
    argv.extend_from_slice(&kv);
    let out = run(&mut store, &argv);
    assert!(out.failed);
    assert_eq!(
        out.stderr,
        format!("Failed: Keys and values bnumber has to be even, given {}\n", kv.len())
    );
    assert!(store.is_empty());
    assert_eq!(run(&mut store, &["get", "1111"]).stderr, "Not Found\n");
}

#[test]
fn basic_scan() {
    let mut store = Store::new();
    four_pairs(&mut store);
    assert_eq!(
        run(&mut store, &["scan"]).stdout,
        "1111 : 1111\n2222 : 2222\n3333 : 3333\n4444 : 4444\n"
    );
    assert_eq!(
        run(&mut store, &["scan", "--value_hex"]).stdout,
        "1111 : 0x31313131\n2222 : 0x32323232\n3333 : 0x33333333\n4444 : 0x34343434\n"
    );
    assert_eq!(
        run(&mut store, &["scan", "--key_hex"]).stdout,
        "0x31313131 : 1111\n0x32323232 : 2222\n0x33333333 : 3333\n0x34343434 : 4444\n"
    );
    assert_eq!(
        run(&mut store, &["scan", "--hex"]).stdout,
        "0x31313131 : 0x31313131\n0x32323232 : 0x32323232\n0x33333333 : 0x33333333\n0x34343434 : 0x34343434\n"
    );
}

#[test]
fn scan_from_to() {
    let mut store = Store::new();
    four_pairs(&mut store);
    let out = run(&mut store, &["scan", "--from", "2222", "--to", "4444"]);
    assert_eq!(out.stdout, "2222 : 2222\n3333 : 3333\n");
    let out = run(&mut store, &["scan", "--from", "2", "--to", "4"]);
    assert_eq!(out.stdout, "2222 : 2222\n3333 : 3333\n");
    let out = run(&mut store, &["scan", "--to", "4444"]);
    assert_eq!(out.stdout, "1111 : 1111\n2222 : 2222\n3333 : 3333\n");
    let out = run(&mut store, &["scan", "--key_hex", "--from", "32323232", "--to", "34343434"]);
    assert_eq!(out.stdout, "0x32323232 : 2222\n0x33333333 : 3333\n");
    let out = run(&mut store, &["scan", "--value_hex", "--from", "2222", "--to", "4444"]);
    assert_eq!(out.stdout, "2222 : 0x32323232\n3333 : 0x33333333\n");
}

#[test]
fn delete_range() {
    let mut store = Store::new();
    four_pairs(&mut store);
    assert_eq!(run(&mut store, &["deleterange", "2222", "4444"]).stdout, "OK\n");
    assert_eq!(run(&mut store, &["scan"]).stdout, "1111 : 1111\n4444 : 4444\n");
    assert_eq!(run(&mut store, &["deleterange", "1111", "4"]).stdout, "OK\n");
    assert_eq!(run(&mut store, &["scan"]).stdout, "4444 : 4444\n");
}

#[test]
fn dump() {
    let mut store = Store::new();
    four_pairs(&mut store);
    let out = run(&mut store, &["dump", "--output", "./dump.txt"]);
    assert!(!out.failed);
    assert_eq!(out.dump_file, "1111 ==> 1111\n2222 ==> 2222\n3333 ==> 3333\n4444 ==> 4444\n");
    let out = run(&mut store, &["dump", "--max_keys", "2", "--output", "./dump.txt"]);
    assert_eq!(out.dump_file, "1111 ==> 1111\n2222 ==> 2222\n");
}

#[test]
fn scenario_scan_half_open_range() {
    let mut store = Store::new();
    four_pairs(&mut store);
    let out = run(&mut store, &["scan", "--from", "2222", "--to", "4444"]);
    assert_eq!(out.stdout, "2222 : 2222\n3333 : 3333\n");
}

#[test]
fn scenario_delete_range_then_scan() {
    let mut store = Store::new();
    four_pairs(&mut store);
    assert_eq!(run(&mut store, &["deleterange", "2222", "4444"]).stdout, "OK\n");
    assert_eq!(run(&mut store, &["scan"]).stdout, "1111 : 1111\n4444 : 4444\n");
}

#[test]
fn scenario_hex_put_then_hex_get() {
    let mut store = Store::new();
    assert_eq!(run(&mut store, &["put", "--hex", "0x68656c6c6f", "776f726c64"]).stdout, "OK\n");
    assert_eq!(run(&mut store, &["get", "--hex", "0x68656c6c6f"]).stdout, "0x776f726c64\n");
    assert_eq!(store.get(b"hello".as_ref()), Some(&b"world".to_vec()));
}

#[test]
fn scenario_odd_batch_creates_nothing() {
    let mut store = Store::new();
    let out = run(&mut store, &["batchput", "1111", "1111", "2222"]);
    assert!(out.failed);
    assert!(out.stderr.contains("given 3"));
    assert!(!store.contains_key(b"1111".as_ref()));
    assert_eq!(run(&mut store, &["scan"]).stdout, "");
}

#[test]
fn scenario_get_absent_key() {
    let mut store = Store::new();
    let out = run(&mut store, &["get", "absent"]);
    assert_eq!(out.stderr, "Not Found\n");
    assert_eq!(out.stdout, "");
    assert!(!out.failed);
}

#[test]
fn delete_twice_succeeds() {
    let mut store = Store::new();
    run(&mut store, &["put", "k", "v"]);
    assert_eq!(run(&mut store, &["delete", "k"]).stdout, "OK\n");
    let once = store.clone();
    let out = run(&mut store, &["delete", "k"]);
    assert_eq!(out.stdout, "OK\n");
    assert!(!out.failed);
    assert_eq!(store, once);
    assert_eq!(run(&mut store, &["delete", "never-there"]).stdout, "OK\n");
}

#[test]
fn later_duplicate_in_batch_wins() {
    let mut store = Store::new();
    run(&mut store, &["batchput", "k", "first", "k", "second"]);
    assert_eq!(run(&mut store, &["get", "k"]).stdout, "second\n");
}

#[test]
fn scan_with_malformed_hex_bound_fails() {
    let mut store = Store::new();
    four_pairs(&mut store);
    let out = run(&mut store, &["scan", "--key_hex", "--from", "zz"]);
    assert!(out.failed);
    assert_eq!(out.stdout, "");
    assert!(out.stderr.contains("zz"));
}

#[test]
fn batch_with_malformed_hex_changes_nothing() {
    let mut store = Store::new();
    let out = run(&mut store, &["batchput", "--hex", "31", "31", "32", "xx"]);
    assert!(out.failed);
    assert!(out.stderr.contains("xx"));
    assert!(store.is_empty());
}

#[test]
fn unknown_operation_fails() {
    let mut store = Store::new();
    assert!(run(&mut store, &["frobnicate"]).failed);
    assert!(run(&mut store, &["put", "only-key"]).failed);
    assert!(run(&mut store, &["dump"]).failed);
}
