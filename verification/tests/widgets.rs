use petunia::data::ident::short_uuid;
use petunia::data::{Contact, ContactId, Message, Status, Thread};
use petunia::text::{is_whitespace, replace_newlines, trim};
use petunia::theme::{accent_index, thread_accent, ACCENT_COUNT};
use petunia::widget::avatar::initials;
use petunia::widget::message_view::{sender_name, status_label};
use petunia::widget::qr::{handle, render};
use petunia::widget::sidebar::{contact_label, preview_text, truncate};

const UUID: u128 = 0xa1a2a3a4b1b2c1c2d1d2d3d4d5d6d7d8;

#[test]
fn status_labels() {
    assert_eq!(status_label(Status::Sending), "sending…");
    assert_eq!(status_label(Status::Failed), "failed to send");
    assert_eq!(status_label(Status::Sent), "sent");
    assert_eq!(status_label(Status::Delivered), "delivered");
    assert_eq!(status_label(Status::Read), "read");
}

#[test]
fn uuid_text_is_hyphenated_lowercase() {
    assert_eq!(short_uuid(UUID), "a1a2a3a4");
    assert_eq!(short_uuid(0), "00000000");
    assert_eq!(short_uuid(0x0123456789abcdef << 64), "01234567");
}

#[test]
fn sender_name_prefers_you_then_contact_then_uuid() {
    let contacts = vec![Contact { uuid: 7, name: "Grace".into() }, Contact { uuid: 8, name: String::new() }];
    assert_eq!(sender_name(7, 7, &contacts), "You");
    assert_eq!(sender_name(7, 1, &contacts), "Grace");
    assert_eq!(sender_name(UUID, 1, &contacts), "a1a2a3a4");
    assert_eq!(sender_name(8, 1, &contacts), "00000000");
}

fn message(sender: u128, body: &str) -> Message {
    Message { timestamp: 1, sender, body: body.into(), status: None }
}

#[test]
fn preview_text_variants() {
    let contacts = vec![Contact { uuid: 5, name: "Bob".into() }];
    let group = Thread::Group([1; 32]);
    let direct = Thread::Contact(ContactId::Aci(5));
    assert_eq!(preview_text(None, &direct, 1, &contacts), "");
    assert_eq!(preview_text(Some(&message(1, "hi\nthere")), &direct, 1, &contacts), "You: hi there");
    assert_eq!(preview_text(Some(&message(5, "yo")), &group, 1, &contacts), "Bob: yo");
    assert_eq!(preview_text(Some(&message(6, "yo")), &group, 1, &contacts), "?: yo");
    assert_eq!(preview_text(Some(&message(5, "a\nb")), &direct, 1, &contacts), "a b");
}

#[test]
fn truncate_cuts_with_ellipsis() {
    assert_eq!(truncate("short", 22), "short");
    assert_eq!(truncate("exactly", 7), "exactly");
    assert_eq!(truncate("abcdefgh", 5), "abcd…");
    assert_eq!(truncate("ééééé", 3), "éé…");
    assert_eq!(truncate("", 0), "");
    assert_eq!(truncate("ab", 1), "…");
}

#[test]
fn initials_take_first_two_words() {
    assert_eq!(initials("Ada Lovelace"), "AL");
    assert_eq!(initials("  grace  brewster hopper "), "GB");
    assert_eq!(initials("x"), "X");
    assert_eq!(initials(""), "");
    assert_eq!(initials("\tß\nz"), "SSZ");
}

#[test]
fn contact_label_falls_back_to_uuid() {
    assert_eq!(contact_label(&Contact { uuid: UUID, name: String::new() }), "a1a2a3a4");
    assert_eq!(contact_label(&Contact { uuid: UUID, name: "Linus".into() }), "Linus");
}

#[test]
fn accent_index_is_byte_sum_modulo_palette() {
    assert_eq!(ACCENT_COUNT, 8);
    assert_eq!(accent_index(&[]), 0);
    assert_eq!(accent_index(&[1, 2, 3]), 6);
    assert_eq!(accent_index(&[255, 255]), (510 % 8) as usize);
    assert_eq!(thread_accent(&Thread::Group([1; 32])), 0);
    let bytes: [u8; 16] =
        [0xa1, 0xa2, 0xa3, 0xa4, 0xb1, 0xb2, 0xc1, 0xc2, 0xd1, 0xd2, 0xd3, 0xd4, 0xd5, 0xd6, 0xd7, 0xd8];
    let sum: usize = bytes.iter().map(|b| *b as usize).sum();
    assert_eq!(thread_accent(&Thread::Contact(ContactId::Pni(UUID))), sum % 8);
    assert_eq!(thread_accent(&Thread::Contact(ContactId::Aci(1))), 1);
    assert_eq!(thread_accent(&Thread::Contact(ContactId::Aci(1 << 120))), 1);
}

#[test]
fn qr_render_draws_modules_with_quiet_zone() {
    let width = 21;
    let mut dark = vec![false; width * width];
    dark[0] = true;
    dark[width * width - 1] = true;
    let image = render(width, &dark);
    let size = (width + 8) * 6;
    assert_eq!(image.size as usize, size);
    assert_eq!(image.pixels.len(), size * size * 4);
    let byte = |row: usize, col: usize, ch: usize| image.pixels[(row * size + col) * 4 + ch];
    // The first module starts after the quiet zone of 4 modules of 6 pixels.
    assert_eq!(byte(24, 24, 0), 0);
    assert_eq!(byte(29, 29, 2), 0);
    assert_eq!(byte(29, 29, 3), 0xff);
    assert_eq!(byte(23, 24, 0), 0xff);
    assert_eq!(byte(24, 30, 0), 0xff);
    // The last module ends where the quiet zone begins.
    let end = (width + 4) * 6;
    assert_eq!(byte(end - 1, end - 1, 1), 0);
    assert_eq!(byte(end, end - 1, 1), 0xff);
    assert_eq!(byte(0, 0, 0), 0xff);
}

#[test]
fn qr_handle_matches_qrcode_modules() {
    let data = "sgnl://linkdevice?uuid=test";
    let image = handle(data).unwrap();
    let code = qrcode::QrCode::new(data).unwrap();
    let width = code.width();
    let size = (width + 8) * 6;
    assert_eq!(image.size as usize, size);
    let colors = code.to_colors();
    for my in 0..width {
        for mx in 0..width {
            let row = (my + 4) * 6 + 3;
            let col = (mx + 4) * 6 + 2;
            let expected = if colors[my * width + mx] == qrcode::Color::Dark { 0 } else { 0xff };
            assert_eq!(image.pixels[(row * size + col) * 4], expected);
        }
    }
}

#[test]
fn qr_handle_rejects_data_too_long() {
    let data = "x".repeat(8000);
    assert!(handle(&data).is_none());
}

#[test]
fn whitespace_is_the_unicode_set() {
    for c in ['\t', '\n', '\u{b}', '\u{c}', '\r', ' ', '\u{85}', '\u{a0}', '\u{1680}', '\u{2000}', '\u{200a}', '\u{2028}', '\u{2029}', '\u{202f}', '\u{205f}', '\u{3000}'] {
        assert!(is_whitespace(c), "{c:?}");
        assert_eq!(is_whitespace(c), c.is_whitespace());
    }
    for c in ['a', '\u{8}', '\u{e}', '\u{200b}', '\u{180e}', '\u{feff}', 'é'] {
        assert!(!is_whitespace(c), "{c:?}");
        assert_eq!(is_whitespace(c), c.is_whitespace());
    }
    assert_eq!(trim("  hi  "), "hi");
    assert_eq!(trim("\u{3000}a b\u{a0}\n"), "a b");
    assert_eq!(trim(" \t "), "");
    assert_eq!(trim(""), "");
    assert_eq!(replace_newlines("a\nb\n"), "a b ");
    assert_eq!(initials("  john \u{2003} ronald tolkien"), "JR");
}

#[test]
fn accent_ignores_the_order_of_the_bytes() {
    assert_eq!(accent_index(&[1, 2, 250]), accent_index(&[250, 1, 2]));
    assert_eq!(accent_index(&[1, 2, 250]), (1 + 2 + 250) % ACCENT_COUNT);
}
