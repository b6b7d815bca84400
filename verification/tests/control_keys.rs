//! The control-key mask and the control-byte test.

use ronto::session::{KEY_BACKSPACE, KEY_CTRL_H, KEY_CTRL_Q, KEY_CTRL_S, KEY_RETURN};
use ronto::{ctrl_key, is_ctrl};

#[test]
fn ctrl_key_masks_to_the_bound_control_bytes() {
    assert_eq!(ctrl_key(b'q'), KEY_CTRL_Q);
    assert_eq!(ctrl_key(b's'), KEY_CTRL_S);
    assert_eq!(ctrl_key(b'h'), KEY_CTRL_H);
    assert_eq!(ctrl_key(b'm'), KEY_RETURN);
}

#[test]
fn is_ctrl_accepts_control_codes_and_del() {
    assert!(is_ctrl(0));
    assert!(is_ctrl(31));
    assert!(is_ctrl(KEY_BACKSPACE));
    assert!(!is_ctrl(32));
    assert!(!is_ctrl(b'a'));
    assert!(!is_ctrl(126));
    assert!(!is_ctrl(128));
}
