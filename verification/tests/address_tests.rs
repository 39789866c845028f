use solana_tools::address::{count_bytes, read_address_list};

const SYSTEM_PROGRAM: &str = "11111111111111111111111111111111";
const TOKEN_PROGRAM: &str = "TokenkegQfeZyiNwAJbNbGKPFXCWuBvf9Ss623VQ5DA";

#[test]
fn count_bytes_accepts_32_byte_addresses() {
    assert_eq!(count_bytes(SYSTEM_PROGRAM.to_string()), Ok(SYSTEM_PROGRAM.to_string()));
    assert_eq!(count_bytes(TOKEN_PROGRAM.to_string()), Ok(TOKEN_PROGRAM.to_string()));
}

#[test]
fn count_bytes_rejects_text_that_is_not_base58() {
    assert_eq!(
        count_bytes("abc0".to_string()),
        Err("I couldn't convert the string (abc0) into Base58.".to_string())
    );
    assert_eq!(
        count_bytes("Il".to_string()),
        Err("I couldn't convert the string (Il) into Base58.".to_string())
    );
    assert_eq!(
        count_bytes("é".to_string()),
        Err("I couldn't convert the string (é) into Base58.".to_string())
    );
}

#[test]
fn count_bytes_rejects_other_lengths() {
    assert_eq!(
        count_bytes("abc".to_string()),
        Err("I could not recognize the address abc.".to_string())
    );
    assert_eq!(count_bytes("".to_string()), Err("I could not recognize the address .".to_string()));
    let thirty_three_ones = "1".repeat(33);
    assert_eq!(
        count_bytes(thirty_three_ones.clone()),
        Err(format!("I could not recognize the address {}.", thirty_three_ones))
    );
}

#[test]
fn count_bytes_agrees_with_decoded_length() {
    for s in ["1", "z", "2NEpo7TZRRrLZSi2U", SYSTEM_PROGRAM, TOKEN_PROGRAM, "So11111111111111111111111111111111111111112"] {
        let ok = bs58::decode(s).into_vec().map(|v| v.len() == 32).unwrap_or(false);
        assert_eq!(count_bytes(s.to_string()).is_ok(), ok, "{}", s);
    }
}

#[test]
fn read_address_list_keeps_addresses_and_warns_of_the_rest() {
    let content = format!("  {}\r\nnot-an-address\n\n{}\0\n", SYSTEM_PROGRAM, TOKEN_PROGRAM);
    let list = read_address_list(&content);
    assert_eq!(list.addresses, vec![SYSTEM_PROGRAM.to_string(), TOKEN_PROGRAM.to_string()]);
    assert_eq!(
        list.warnings,
        vec![
            "I couldn't convert the string (not-an-address) into Base58.".to_string(),
            "I could not recognize the address .".to_string(),
        ]
    );
}

#[test]
fn read_address_list_of_empty_text_has_no_lines() {
    let list = read_address_list("");
    assert!(list.addresses.is_empty());
    assert!(list.warnings.is_empty());
}

#[test]
fn read_address_list_last_line_without_newline() {
    let content = format!("x\n{}", TOKEN_PROGRAM);
    let list = read_address_list(&content);
    assert_eq!(list.addresses, vec![TOKEN_PROGRAM.to_string()]);
    assert_eq!(list.warnings.len(), 1);
}

#[test]
fn read_address_list_follows_std_lines() {
    let content = "a\n\nb\r\n\n";
    let list = read_address_list(content);
    assert_eq!(list.addresses.len() + list.warnings.len(), content.lines().count());
}
