use quartz::balances::Balances;
use quartz::bytes::{bytes_eq, compare_bytes, Order};
use quartz::codec::{
    encode_balance, encode_state, encode_transfer, parse_state, parse_transfer,
};
use quartz::decimal::{encode_decimal, parse_decimal};
use quartz::hex::{decode_hex, encode_hex};
use quartz::json::{read_number, state_of, transfer_of};
use quartz::attested::HasUserData;
use quartz::messages::{ClearTextTransferRequestMsg, QueryResponseMessage, UpdateMsg};
use sha2::{Digest, Sha256};
use quartz::wire::{check_plain_text, push_json_string};

#[test]
fn hex_encodes_lower_case_high_half_first() {
    assert_eq!(encode_hex(&[0x00, 0x0f, 0xa5, 0xff]), b"000fa5ff".to_vec());
    assert_eq!(encode_hex(&[]), Vec::<u8>::new());
}

#[test]
fn hex_agrees_with_the_hex_crate() {
    let data: Vec<u8> = (0u16..=255).map(|b| b as u8).collect();
    assert_eq!(encode_hex(&data), hex::encode(&data).into_bytes());
    assert_eq!(decode_hex(hex::encode(&data).as_bytes()), Some(data));
}

#[test]
fn hex_decodes_both_cases_and_refuses_the_rest() {
    assert_eq!(decode_hex(b"DEADbeef"), Some(vec![0xde, 0xad, 0xbe, 0xef]));
    assert_eq!(decode_hex(b""), Some(vec![]));
    assert_eq!(decode_hex(b"abc"), None);
    assert_eq!(decode_hex(b"zz"), None);
    assert_eq!(decode_hex(b"0x12"), None);
}

#[test]
fn hex_round_trip() {
    let data = vec![1u8, 2, 3, 254, 255, 0];
    assert_eq!(decode_hex(&encode_hex(&data)), Some(data));
}

#[test]
fn decimal_text_of_numbers() {
    assert_eq!(encode_decimal(0), b"0".to_vec());
    assert_eq!(encode_decimal(7), b"7".to_vec());
    assert_eq!(encode_decimal(1090), b"1090".to_vec());
    assert_eq!(
        encode_decimal(u128::MAX),
        b"340282366920938463463374607431768211455".to_vec()
    );
}

#[test]
fn decimal_text_reads_back() {
    assert_eq!(parse_decimal(b"0"), Some(0));
    assert_eq!(parse_decimal(b"100"), Some(100));
    assert_eq!(
        parse_decimal(b"340282366920938463463374607431768211455"),
        Some(u128::MAX)
    );
    for n in [0u128, 9, 10, 99, 12345678901234567890, u128::MAX] {
        assert_eq!(parse_decimal(&encode_decimal(n)), Some(n));
    }
}

#[test]
fn decimal_text_refuses_what_is_no_number() {
    assert_eq!(parse_decimal(b""), None);
    assert_eq!(parse_decimal(b"01"), None);
    assert_eq!(parse_decimal(b"+1"), None);
    assert_eq!(parse_decimal(b"1a"), None);
    assert_eq!(parse_decimal(b"340282366920938463463374607431768211456"), None);
}

#[test]
fn bytes_compare_lexicographically() {
    assert_eq!(compare_bytes(b"alice", b"bob"), Order::Before);
    assert_eq!(compare_bytes(b"bob", b"alice"), Order::After);
    assert_eq!(compare_bytes(b"al", b"alice"), Order::Before);
    assert_eq!(compare_bytes(b"alice", b"alice"), Order::Same);
    assert_eq!(compare_bytes(b"", b""), Order::Same);
    assert!(bytes_eq(b"abc", b"abc"));
    assert!(!bytes_eq(b"abc", b"abd"));
    assert!(!bytes_eq(b"abc", b"ab"));
}

#[test]
fn plain_text_has_no_quote_backslash_or_control() {
    assert!(check_plain_text(b"cosmos1abc"));
    assert!(check_plain_text(b""));
    assert!(!check_plain_text(b"a\"b"));
    assert!(!check_plain_text(b"a\\b"));
    assert!(!check_plain_text(b"a\nb"));
    assert!(!check_plain_text(&[0x80]));
}

#[test]
fn state_text_lists_accounts_in_order() {
    let mut b = Balances::new();
    b.set(b"bob", 30);
    b.set(b"alice", 70);
    assert_eq!(
        encode_state(&b),
        br#"{"state":{"alice":"70","bob":"30"}}"#.to_vec()
    );
    assert_eq!(encode_state(&Balances::new()), br#"{"state":{}}"#.to_vec());
}

#[test]
fn state_text_reads_back() {
    let mut b = Balances::new();
    b.set(b"carol", 1);
    b.set(b"alice", u128::MAX);
    b.set(b"bob", 0);
    let text = encode_state(&b);
    let back = parse_state(&text).expect("the text of a state");
    assert_eq!(back.len(), 3);
    assert_eq!(back.get(b"alice"), Some(u128::MAX));
    assert_eq!(back.get(b"bob"), Some(0));
    assert_eq!(back.get(b"carol"), Some(1));
    assert_eq!(encode_state(&back), text);
    let empty = parse_state(br#"{"state":{}}"#).expect("the text of the empty state");
    assert_eq!(empty.len(), 0);
}

#[test]
fn text_that_holds_no_state_is_refused() {
    assert!(parse_state(b"").is_none());
    assert!(parse_state(br#"{"state":{"#).is_none());
    assert!(parse_state(br#"{"state":{"bob":1}}"#).is_none());
    assert!(parse_state(br#"{"state":{"bob":"1",}}"#).is_none());
    assert!(parse_state(br#"{"state":{"bob":"one"}}"#).is_none());
    assert!(parse_state(br#"{"state":{"bob":""}}"#).is_none());
    assert!(parse_state(br#"{"state":{"bob":"+"}}"#).is_none());
    assert!(parse_state(br#"{"state":{"bob":"-1"}}"#).is_none());
    assert!(parse_state(br#"{"state":{"bob":"340282366920938463463374607431768211456"}}"#).is_none());
    assert!(parse_state(br#"{"states":{"bob":"1"}}"#).is_none());
    assert!(parse_state(br#"{"state":{"bo\"b":"1"}}"#).is_none());
    assert!(parse_state(br#"[]"#).is_none());
}

#[test]
fn state_text_is_read_in_any_shape_that_json_allows() {
    let spaced = parse_state(b" { \"state\" : {\n \"bob\" : \"1\" ,\t\"alice\" : \"2\" } } ")
        .expect("a state");
    assert_eq!(spaced.len(), 2);
    assert_eq!(spaced.get(b"alice"), Some(2));
    assert_eq!(spaced.get(b"bob"), Some(1));
    assert_eq!(encode_state(&spaced), br#"{"state":{"alice":"2","bob":"1"}}"#.to_vec());
    let twice = parse_state(br#"{"state":{"bob":"1","bob":"2"}}"#).expect("a state");
    assert_eq!(twice.len(), 1);
    assert_eq!(twice.get(b"bob"), Some(2));
    let numbers = parse_state(br#"{"state":{"a":"01","b":"+7","c":"000","d":"+0010"}}"#)
        .expect("a state");
    assert_eq!(numbers.get(b"a"), Some(1));
    assert_eq!(numbers.get(b"b"), Some(7));
    assert_eq!(numbers.get(b"c"), Some(0));
    assert_eq!(numbers.get(b"d"), Some(10));
    let escaped = parse_state(br#"{"state":{"bob":"1"}}"#).expect("a state");
    assert_eq!(escaped.get(b"bob"), Some(1));
    let most = parse_state(br#"{"state":{"bob":"0340282366920938463463374607431768211455"}}"#)
        .expect("a state");
    assert_eq!(most.get(b"bob"), Some(u128::MAX));
}

#[test]
fn objects_of_strings_hold_transfers_and_states() {
    let row = |name: &str, text: &str| (name.as_bytes().to_vec(), text.as_bytes().to_vec());
    let field = |name: &str, text: &str| (name.as_bytes().to_vec(), Some(text.as_bytes().to_vec()));
    let other = |name: &str| (name.as_bytes().to_vec(), None);
    let fields = vec![field("amount", "30"), other("memo"), field("receiver", "bob"), field("sender", "alice")];
    let t = transfer_of(&fields).expect("a transfer");
    assert_eq!((t.sender, t.receiver, t.amount), (b"alice".to_vec(), b"bob".to_vec(), 30));
    assert!(transfer_of(&vec![field("amount", "30"), field("receiver", "bob")]).is_none());
    assert!(transfer_of(&vec![other("amount"), field("receiver", "bob"), field("sender", "alice")]).is_none());
    assert!(transfer_of(&vec![field("amount", "x"), field("receiver", "bob"), field("sender", "alice")]).is_none());
    assert!(transfer_of(&vec![field("amount", "1"), field("receiver", "b\"b"), field("sender", "alice")]).is_none());
    let rows = vec![row("alice", "2"), row("bob", "1")];
    let state = state_of(&vec![(b"epoch".to_vec(), None), (b"state".to_vec(), Some(rows.clone()))])
        .expect("a state");
    assert_eq!(state.get(b"alice"), Some(2));
    assert_eq!(state.get(b"bob"), Some(1));
    assert!(state_of(&vec![(b"other".to_vec(), Some(rows))]).is_none());
    assert!(state_of(&vec![(b"state".to_vec(), None)]).is_none());
    assert!(state_of(&vec![(b"state".to_vec(), Some(vec![row("bob", "1"), row("alice", "2")]))]).is_none());
    assert_eq!(read_number(b"+007"), Some(7));
    assert_eq!(read_number(b"0"), Some(0));
    assert_eq!(read_number(b""), None);
    assert_eq!(read_number(b"7+"), None);
    assert_eq!(read_number(b"++7"), None);
}

#[test]
fn fields_that_are_not_asked_for_are_passed_over() {
    let t = parse_transfer(br#"{"memo":{"n":[1,2]},"sender":"alice","receiver":"bob","amount":"3","ok":true}"#)
        .expect("a transfer");
    assert_eq!((t.sender, t.receiver, t.amount), (b"alice".to_vec(), b"bob".to_vec(), 3));
    assert!(parse_transfer(br#"{"sender":"alice","receiver":"bob","amount":3,"memo":"x"}"#).is_none());
    assert!(parse_transfer(br#"{"sender":["alice"],"receiver":"bob","amount":"3"}"#).is_none());
    let state = parse_state(br#"{"version":1,"state":{"bob":"1"},"note":"x"}"#).expect("a state");
    assert_eq!(state.get(b"bob"), Some(1));
    assert!(parse_state(br#"{"state":{"bob":"1","carol":2}}"#).is_none());
    assert!(parse_state(br#"{"state":"none"}"#).is_none());
}

#[test]
fn transfer_text_and_back() {
    let t = ClearTextTransferRequestMsg {
        sender: b"alice".to_vec(),
        receiver: b"bob".to_vec(),
        amount: 30,
    };
    let text = encode_transfer(&t);
    assert_eq!(
        text,
        br#"{"sender":"alice","receiver":"bob","amount":"30"}"#.to_vec()
    );
    let back = parse_transfer(&text).expect("the text of a transfer");
    assert_eq!(back.sender, b"alice".to_vec());
    assert_eq!(back.receiver, b"bob".to_vec());
    assert_eq!(back.amount, 30);
    assert!(parse_transfer(br#"{"sender":"alice","receiver":"bob","amount":30}"#).is_none());
    assert!(parse_transfer(br#"{"sender":"alice","receiver":"bob"}"#).is_none());
    assert!(parse_transfer(br#"{"sender":"al\"ice","receiver":"bob","amount":"30"}"#).is_none());
    assert!(parse_transfer(b"hello").is_none());
}

#[test]
fn transfer_text_is_read_in_any_shape_that_json_allows() {
    let other = parse_transfer(b"{ \"receiver\": \"bob\",\n  \"amount\": \"030\", \"sender\": \"al\\u0069ce\" }\n")
        .expect("a transfer");
    assert_eq!(other.sender, b"alice".to_vec());
    assert_eq!(other.receiver, b"bob".to_vec());
    assert_eq!(other.amount, 30);
    assert_eq!(
        encode_transfer(&other),
        br#"{"sender":"alice","receiver":"bob","amount":"30"}"#.to_vec()
    );
}

#[test]
fn balance_text() {
    assert_eq!(encode_balance(0), br#"{"balance":"0"}"#.to_vec());
    assert_eq!(encode_balance(70), br#"{"balance":"70"}"#.to_vec());
}

#[test]
fn json_strings_escape_what_cannot_stand_as_it_is() {
    let written = |text: &[u8]| {
        let mut out = b"x".to_vec();
        push_json_string(&mut out, text);
        out
    };
    assert_eq!(written(b"cosmos1abc"), b"x\"cosmos1abc\"".to_vec());
    assert_eq!(written(b""), b"x\"\"".to_vec());
    assert_eq!(written(b"a\"b\\c"), b"x\"a\\\"b\\\\c\"".to_vec());
    assert_eq!(written(&[8, 9, 10, 12, 13]), b"x\"\\b\\t\\n\\f\\r\"".to_vec());
    assert_eq!(written(&[0, 31, 27]), b"x\"\\u0000\\u001f\\u001b\"".to_vec());
    assert_eq!(written(&[127, 200]), vec![b'x', b'"', 127, 200, b'"']);
    for text in ["plain", "qu\"ote", "back\\slash", "line\nfeed\ttab", "\u{1}\u{1f}", "caf\u{e9}"] {
        let mut out = Vec::new();
        push_json_string(&mut out, text.as_bytes());
        assert_eq!(out, serde_json::to_vec(text).expect("a string"));
    }
}

#[test]
fn attested_texts_escape_their_addresses() {
    let odd = "a\"b\\c\nd";
    let update = UpdateMsg { ciphertext: vec![0xab], quantity: 2, withdrawals: vec![(odd.as_bytes().to_vec(), 5)] };
    let text = format!(
        r#"{{"ciphertext":"ab","quantity":2,"withdrawals":[[{},"5"]]}}"#,
        serde_json::to_string(odd).expect("a string")
    );
    assert_eq!(update.to_json(), text.clone().into_bytes());
    assert_eq!(update.user_data()[..32], Sha256::digest(text.as_bytes())[..]);
    let answer = QueryResponseMessage { address: odd.as_bytes().to_vec(), encrypted_bal: vec![1] };
    let text = format!(
        r#"{{"address":{},"encrypted_bal":"01"}}"#,
        serde_json::to_string(odd).expect("a string")
    );
    assert_eq!(answer.to_json(), text.into_bytes());
    let other = UpdateMsg { ciphertext: vec![0xab], quantity: 2, withdrawals: vec![(b"a\"b\\c\\nd".to_vec(), 5)] };
    assert_ne!(other.to_json(), update.to_json());
    assert_ne!(other.user_data(), update.user_data());
}
