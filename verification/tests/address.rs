use wallet_value::address::Address;

const DAI: &str = "0x6b175474e89094c44da98b954eedeac495271d0f";

const DAI_BYTES: [u8; 20] = [
    0x6b, 0x17, 0x54, 0x74, 0xe8, 0x90, 0x94, 0xc4, 0x4d, 0xa9, 0x8b, 0x95, 0x4e, 0xed, 0xea, 0xc4,
    0x95, 0x27, 0x1d, 0x0f,
];

#[test]
fn address_with_prefix_parses() {
    let address = Address::parse(DAI).unwrap();
    assert_eq!(address.bytes(), DAI_BYTES);
}

#[test]
fn address_without_prefix_parses() {
    let address = Address::parse(&DAI[2..]).unwrap();
    assert_eq!(address.bytes(), DAI_BYTES);
}

#[test]
fn upper_case_digits_parse_to_the_same_address() {
    let address = Address::parse("0x6B175474E89094C44DA98B954EEDEAC495271D0F").unwrap();
    assert_eq!(address, Address::parse(DAI).unwrap());
}

#[test]
fn zero_address_parses() {
    let address = Address::parse("0x0000000000000000000000000000000000000000").unwrap();
    assert_eq!(address.bytes(), [0u8; 20]);
}

#[test]
fn text_that_is_no_address_does_not_parse() {
    assert_eq!(Address::parse(""), None);
    assert_eq!(Address::parse("0x"), None);
    assert_eq!(Address::parse("vitalik.eth"), None);
    assert_eq!(Address::parse("0x6b175474e89094c44da98b954eedeac495271d"), None);
    assert_eq!(Address::parse("0x6b175474e89094c44da98b954eedeac495271d0f00"), None);
    assert_eq!(Address::parse("0x6b175474e89094c44da98b954eedeac495271d0g"), None);
    assert_eq!(Address::parse("0X6b175474e89094c44da98b954eedeac495271d0f"), None);
}
