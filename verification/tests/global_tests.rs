use ember_core::GlobalStateV1;
use ember_core::Pubkey;

fn key(n: u64) -> Pubkey {
    Pubkey::new(n, 51, 52, 53)
}

#[test]
fn admins_and_keepers_are_recognized() {
    let admin = key(1);
    let keeper = key(2);
    let stranger = key(3);
    let global = GlobalStateV1 {
        version: 1,
        _pad: [0; 128],
        admins: vec![admin],
        keepers: vec![keeper],
        min_deposit_size: 100,
        _pad2: [0; 128],
    };
    assert!(global.is_admin(&admin));
    assert!(!global.is_admin(&keeper));
    assert!(!global.is_admin(&stranger));
    assert!(global.is_keeper(&keeper));
    // Admins count as keepers.
    assert!(global.is_keeper(&admin));
    assert!(!global.is_keeper(&stranger));
}
