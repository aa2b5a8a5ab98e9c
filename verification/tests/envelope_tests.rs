use dh_envelope::{
    ComponentView, EnvelopeError, decrypt_dh, encrypt_dh, extract_component, generate_dh_keys,
    generate_fingerprint,
};

#[test]
fn test() -> Result<(), EnvelopeError> {
    let fp_res = generate_fingerprint();

    let rx_dh_keys = generate_dh_keys();
    let tx_dh_keys = generate_dh_keys();

    let content = vec![1, 2, 3, 4, 5];

    let encrypted = encrypt_dh(
        fp_res.fingerprint(),
        content.clone(),
        tx_dh_keys.private(),
        rx_dh_keys.public(),
    )?;

    let decrypted = decrypt_dh(
        0,
        encrypted,
        fp_res.verifier_key(),
        tx_dh_keys.public(),
        rx_dh_keys.private(),
    )?;

    assert_eq!(content, decrypted);

    Ok(())
}

#[test]
fn generated_material_is_32_bytes() {
    let fp_res = generate_fingerprint();
    assert_eq!(fp_res.fingerprint().len(), 32);
    assert_eq!(fp_res.verifier_key().len(), 32);

    let keys = generate_dh_keys();
    assert_eq!(keys.private().len(), 32);
    assert_eq!(keys.public().len(), 32);
}

#[test]
fn round_trip_every_recipient() {
    let fp_res = generate_fingerprint();
    let sender = generate_dh_keys();
    let recipients = [generate_dh_keys(), generate_dh_keys(), generate_dh_keys()];

    let content = vec![9u8, 8, 7, 6, 5, 4, 3, 2, 1, 0];

    let mut public_keys = Vec::new();
    for r in &recipients {
        public_keys.extend(r.public());
    }

    let envelope = encrypt_dh(
        fp_res.fingerprint(),
        content.clone(),
        sender.private(),
        public_keys,
    )
    .unwrap();

    for (i, r) in recipients.iter().enumerate() {
        let decrypted = decrypt_dh(
            i,
            envelope.clone(),
            fp_res.verifier_key(),
            sender.public(),
            r.private(),
        )
        .unwrap();
        assert_eq!(decrypted, content);
    }
}

#[test]
fn sealed_envelope_has_documented_length() {
    let fp_res = generate_fingerprint();
    let sender = generate_dh_keys();
    let recipient = generate_dh_keys();

    let content = vec![1u8, 2, 3, 4, 5];
    let envelope = encrypt_dh(
        fp_res.fingerprint(),
        content.clone(),
        sender.private(),
        recipient.public(),
    )
    .unwrap();

    // nonce (24) + count header (1) + one wrapped key (32)
    //   + content (5) + signature (64) + authenticator (16) + mode tag (1)
    assert_eq!(envelope.len(), 24 + 1 + 32 + content.len() + 64 + 16 + 1);
    assert_eq!(*envelope.last().unwrap(), 2);
    // a count below 128 is stored as one byte with its low bit set
    assert_eq!(envelope[24], 2 * 1 + 1);

    let mut three_keys = Vec::new();
    for _ in 0..3 {
        three_keys.extend(generate_dh_keys().public());
    }
    let envelope = encrypt_dh(fp_res.fingerprint(), content.clone(), sender.private(), three_keys)
        .unwrap();
    assert_eq!(envelope.len(), 24 + 1 + 3 * 32 + content.len() + 64 + 16 + 1);
    assert_eq!(envelope[24], 2 * 3 + 1);
}

#[test]
fn many_recipients_use_a_wider_count_header() {
    let fp_res = generate_fingerprint();
    let sender = generate_dh_keys();

    let mut recipients = Vec::new();
    let mut public_keys = Vec::new();
    for _ in 0..130 {
        let keys = generate_dh_keys();
        public_keys.extend(keys.public());
        recipients.push(keys);
    }

    let content = vec![3u8, 1, 4, 1, 5];
    let envelope = encrypt_dh(
        fp_res.fingerprint(),
        content.clone(),
        sender.private(),
        public_keys,
    )
    .unwrap();

    // a count of 128..=255 is stored as an even marker byte and one count byte
    assert_eq!(envelope.len(), 24 + 2 + 130 * 32 + content.len() + 64 + 16 + 1);
    assert_eq!(envelope[24], 0);
    assert_eq!(envelope[25], 130);

    for position in [0usize, 64, 129] {
        let decrypted = decrypt_dh(
            position,
            envelope.clone(),
            fp_res.verifier_key(),
            sender.public(),
            recipients[position].private(),
        )
        .unwrap();
        assert_eq!(decrypted, content);
    }

    assert_eq!(
        extract_component(130, &envelope),
        Err(EnvelopeError::ComponentTypeError)
    );
}

#[test]
fn outsider_key_fails_authentication() {
    let fp_res = generate_fingerprint();
    let sender = generate_dh_keys();
    let recipients = [generate_dh_keys(), generate_dh_keys()];
    let outsider = generate_dh_keys();

    let mut public_keys = Vec::new();
    for r in &recipients {
        public_keys.extend(r.public());
    }

    let envelope = encrypt_dh(
        fp_res.fingerprint(),
        vec![42u8; 100],
        sender.private(),
        public_keys,
    )
    .unwrap();

    for i in 0..recipients.len() {
        let r = decrypt_dh(
            i,
            envelope.clone(),
            fp_res.verifier_key(),
            sender.public(),
            outsider.private(),
        );
        assert_eq!(r, Err(EnvelopeError::AuthenticationError));
    }
}

#[test]
fn wrong_verifier_fails_authentication() {
    let fp_res = generate_fingerprint();
    let other_fp = generate_fingerprint();
    let sender = generate_dh_keys();
    let recipient = generate_dh_keys();

    let envelope = encrypt_dh(
        fp_res.fingerprint(),
        vec![5u8; 20],
        sender.private(),
        recipient.public(),
    )
    .unwrap();

    let r = decrypt_dh(
        0,
        envelope,
        other_fp.verifier_key(),
        sender.public(),
        recipient.private(),
    );
    assert_eq!(r, Err(EnvelopeError::AuthenticationError));
}

#[test]
fn any_flipped_bit_fails_decryption() {
    let fp_res = generate_fingerprint();
    let sender = generate_dh_keys();
    let recipient = generate_dh_keys();

    let content = vec![1u8, 2, 3, 4, 5];
    let envelope = encrypt_dh(
        fp_res.fingerprint(),
        content,
        sender.private(),
        recipient.public(),
    )
    .unwrap();

    // One recipient below 128: the count header is a single byte, so the
    // wrapped key occupies [25, 57) and the ciphertext [57, len - 1).
    for byte in 25..envelope.len() - 1 {
        for bit in 0..8 {
            let mut tampered = envelope.clone();
            tampered[byte] ^= 1 << bit;
            let r = decrypt_dh(
                0,
                tampered,
                fp_res.verifier_key(),
                sender.public(),
                recipient.private(),
            );
            assert_eq!(r, Err(EnvelopeError::AuthenticationError));
        }
    }
}

#[test]
fn wrong_length_fields_fail_before_crypto() {
    let fp_res = generate_fingerprint();
    let sender = generate_dh_keys();
    let recipient = generate_dh_keys();

    // encrypt: fingerprint and private key must be exactly 32 bytes
    let r = encrypt_dh(vec![0u8; 31], vec![1], sender.private(), recipient.public());
    assert_eq!(r, Err(EnvelopeError::FormatError));
    let r = encrypt_dh(fp_res.fingerprint(), vec![1], vec![0u8; 33], recipient.public());
    assert_eq!(r, Err(EnvelopeError::FormatError));

    // encrypt: the recipient buffer must be a multiple of 32 bytes
    let mut short_list = recipient.public();
    short_list.pop();
    let r = encrypt_dh(fp_res.fingerprint(), vec![1], sender.private(), short_list);
    assert_eq!(r, Err(EnvelopeError::RecipientListError));

    // decrypt: verifier and both keys must be exactly 32 bytes
    let envelope = encrypt_dh(
        fp_res.fingerprint(),
        vec![1],
        sender.private(),
        recipient.public(),
    )
    .unwrap();
    let r = decrypt_dh(0, envelope.clone(), vec![0u8; 31], sender.public(), recipient.private());
    assert_eq!(r, Err(EnvelopeError::FormatError));
    let r = decrypt_dh(0, envelope.clone(), fp_res.verifier_key(), vec![], recipient.private());
    assert_eq!(r, Err(EnvelopeError::FormatError));
    let r = decrypt_dh(0, envelope, fp_res.verifier_key(), sender.public(), vec![0u8; 64]);
    assert_eq!(r, Err(EnvelopeError::FormatError));
}

#[test]
fn zero_recipients_envelope_opens_for_nobody() {
    let fp_res = generate_fingerprint();
    let sender = generate_dh_keys();
    let stranger = generate_dh_keys();

    let envelope = encrypt_dh(fp_res.fingerprint(), vec![7u8; 12], sender.private(), Vec::new())
        .unwrap();
    assert_eq!(envelope.len(), 24 + 1 + 12 + 64 + 16 + 1);
    assert_eq!(envelope[24], 1);

    let r = decrypt_dh(
        0,
        envelope,
        fp_res.verifier_key(),
        sender.public(),
        stranger.private(),
    );
    assert_eq!(r, Err(EnvelopeError::ComponentTypeError));
}

#[test]
fn all_zero_recipient_key_is_a_crypto_error() {
    let fp_res = generate_fingerprint();
    let sender = generate_dh_keys();

    let r = encrypt_dh(fp_res.fingerprint(), vec![1u8], sender.private(), vec![0u8; 32]);
    assert_eq!(r, Err(EnvelopeError::CryptoError));
}

#[test]
fn non_dh_tag_is_a_component_type_error() {
    let fp_res = generate_fingerprint();
    let sender = generate_dh_keys();
    let recipient = generate_dh_keys();

    // a session-mode envelope built by the primitive library directly
    let session_key: [u8; 32] = sender.private().try_into().unwrap();
    let mut fingerprint = [0u8; 32];
    fingerprint.copy_from_slice(&fp_res.fingerprint());
    let (session_envelope, _) =
        rgp::encrypt(fingerprint, vec![1u8, 2, 3], rgp::Encrypt::Session(session_key, false))
            .unwrap();

    let r = decrypt_dh(
        0,
        session_envelope,
        fp_res.verifier_key(),
        sender.public(),
        recipient.private(),
    );
    assert_eq!(r, Err(EnvelopeError::ComponentTypeError));

    // a tag this library does not interpret at all
    let mut crafted = vec![0u8; 200];
    *crafted.last_mut().unwrap() = 9;
    let r = decrypt_dh(
        0,
        crafted,
        fp_res.verifier_key(),
        sender.public(),
        recipient.private(),
    );
    assert_eq!(r, Err(EnvelopeError::ComponentTypeError));
}

#[test]
fn position_past_recipient_count_is_a_component_type_error() {
    let fp_res = generate_fingerprint();
    let sender = generate_dh_keys();
    let recipient = generate_dh_keys();

    let envelope = encrypt_dh(
        fp_res.fingerprint(),
        vec![1u8, 2, 3],
        sender.private(),
        recipient.public(),
    )
    .unwrap();

    let r = decrypt_dh(
        1,
        envelope,
        fp_res.verifier_key(),
        sender.public(),
        recipient.private(),
    );
    assert_eq!(r, Err(EnvelopeError::ComponentTypeError));
}

#[test]
fn malformed_dh_envelope_is_a_format_error() {
    let fp_res = generate_fingerprint();
    let sender = generate_dh_keys();
    let recipient = generate_dh_keys();

    // DH-tagged but far too short to hold a component region and ciphertext
    let mut truncated = vec![0u8; 40];
    *truncated.last_mut().unwrap() = 2;
    let r = decrypt_dh(
        0,
        truncated,
        fp_res.verifier_key(),
        sender.public(),
        recipient.private(),
    );
    assert_eq!(r, Err(EnvelopeError::FormatError));

    // empty buffer
    let r = decrypt_dh(
        0,
        Vec::new(),
        fp_res.verifier_key(),
        sender.public(),
        recipient.private(),
    );
    assert_eq!(r, Err(EnvelopeError::FormatError));
}

#[test]
fn extract_component_returns_the_wrapped_key() {
    let fp_res = generate_fingerprint();
    let sender = generate_dh_keys();
    let recipient = generate_dh_keys();

    let envelope = encrypt_dh(
        fp_res.fingerprint(),
        vec![1u8, 2, 3],
        sender.private(),
        recipient.public(),
    )
    .unwrap();

    let view = extract_component(0, &envelope).unwrap();
    let (wrapped_key, with_hmac) = match view {
        ComponentView::Dh { wrapped_key, with_hmac } => (wrapped_key, with_hmac),
        ComponentView::Unrecognized { .. } => panic!("expected a Dh component"),
    };
    assert!(!with_hmac);
    assert_eq!(&envelope[25..57], &wrapped_key[..]);

    // the primitive library locates the same wrapped key
    let mut stripped = envelope.clone();
    let components = rgp::extract_components_mut(0, &mut stripped).unwrap();
    match components {
        rgp::Components::Dh(key, hmac) => {
            assert_eq!(key, wrapped_key);
            assert!(!hmac);
        }
        _ => panic!("expected a Dh component"),
    }

    assert_eq!(
        extract_component(1, &envelope),
        Err(EnvelopeError::ComponentTypeError)
    );
    assert_eq!(
        extract_component(0, &Vec::new()),
        Err(EnvelopeError::FormatError)
    );
}

#[test]
fn hmac_wrapped_component_is_reported_and_rejected() {
    let fp_res = generate_fingerprint();
    let sender = generate_dh_keys();
    let recipient = generate_dh_keys();

    let mut fingerprint = [0u8; 32];
    fingerprint.copy_from_slice(&fp_res.fingerprint());
    let mut sender_private = [0u8; 32];
    sender_private.copy_from_slice(&sender.private());
    let mut recipient_public = [0u8; 32];
    recipient_public.copy_from_slice(&recipient.public());
    let hmac_key = [7u8; 32];

    let publics = vec![recipient_public];
    let (envelope, _) = rgp::encrypt(
        fingerprint,
        vec![1u8, 2, 3],
        rgp::Encrypt::Dh(sender_private, &publics, Some(hmac_key)),
    )
    .unwrap();

    let view = extract_component(0, &envelope).unwrap();
    assert!(matches!(view, ComponentView::Dh { with_hmac: true, .. }));

    // this library does not supply the HMAC key, so opening must fail closed
    let r = decrypt_dh(
        0,
        envelope,
        fp_res.verifier_key(),
        sender.public(),
        recipient.private(),
    );
    assert_eq!(r, Err(EnvelopeError::AuthenticationError));
}

#[test]
fn error_kinds_describe_themselves() {
    assert!(!EnvelopeError::FormatError.describe().is_empty());
    assert!(!EnvelopeError::AuthenticationError.describe().is_empty());
    assert_ne!(
        EnvelopeError::FormatError.describe(),
        EnvelopeError::RecipientListError.describe()
    );
}
