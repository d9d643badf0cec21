use sony_headphones_tray::profile::{build_packet, Profile};

#[test]
fn packet_matches_python() {
    let packet = build_packet(Profile::NoiseCancelling);
    assert_eq!(
        packet,
        vec![62, 12, 0, 0, 0, 0, 8, 104, 2, 16, 2, 2, 1, 0, 0, 147, 60]
    );
    let packet = build_packet(Profile::NoAnc);
    assert_eq!(packet, vec![62, 12, 0, 0, 0, 0, 8, 104, 2, 0, 2, 0, 1, 0, 0, 129, 60]);
}

#[test]
fn packets_of_the_other_profiles() {
    assert_eq!(
        build_packet(Profile::WindNoiseCancelling),
        vec![62, 12, 0, 0, 0, 0, 8, 104, 2, 16, 2, 1, 1, 0, 0, 146, 60]
    );
    assert_eq!(
        build_packet(Profile::AmbientSound),
        vec![62, 12, 0, 0, 0, 0, 8, 104, 2, 16, 2, 0, 1, 0, 19, 164, 60]
    );
}

#[test]
fn packets_share_their_frame_and_differ() {
    for p in Profile::ALL {
        let packet = build_packet(p);
        assert_eq!(packet.len(), 17);
        assert_eq!(packet[0], 62);
        assert_eq!(packet[1] as usize, p.ambient_bytes().len());
        assert_eq!(packet[3..15], p.ambient_bytes());
        let sum: u32 = packet[1..15].iter().map(|b| *b as u32).sum();
        assert_eq!(packet[15] as u32, sum % 256);
        assert_eq!(packet[16], 60);
        for q in Profile::ALL {
            assert_eq!(p == q, packet == build_packet(q));
        }
    }
}

#[test]
fn keys_and_positions_lead_back() {
    assert_eq!(Profile::NoiseCancelling.key(), "noise-cancelling");
    assert_eq!(Profile::WindNoiseCancelling.key(), "wind-cancelling");
    assert_eq!(Profile::AmbientSound.key(), "ambient-sound");
    assert_eq!(Profile::NoAnc.key(), "disable");
    for (i, p) in Profile::ALL.into_iter().enumerate() {
        assert_eq!(Profile::from_key(p.key()), Some(p));
        assert_eq!(p.index(), i);
        assert_eq!(Profile::from_index(i), p);
    }
    assert_eq!(Profile::from_key("Disable"), None);
    assert_eq!(Profile::from_key(""), None);
    assert_eq!(Profile::from_index(4), Profile::NoAnc);
    assert_eq!(Profile::from_index(usize::MAX), Profile::NoAnc);
}

#[test]
fn labels_are_those_of_the_menu() {
    let labels: Vec<&str> = Profile::ALL.iter().map(|p| p.label()).collect();
    assert_eq!(
        labels,
        vec![
            "Cancelación de ruido",
            "Reducción de viento",
            "Sonido ambiente",
            "Sin cancelación (OFF)",
        ]
    );
}
