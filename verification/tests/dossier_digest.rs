use eustress_engine::dossier_digest::{digest_entities, EntityFacts, PartFacts, Placement, Rgb};

fn entity(class: &str, name: &str) -> EntityFacts {
    EntityFacts {
        class: class.to_string(),
        name: name.to_string(),
        is_camera: false,
        part: None,
        label: None,
        button: None,
        dialog: None,
        sound: None,
        decal: None,
        mesh: None,
    }
}

fn part(material_name: &str, material: &str, plastic: bool, rgb: (u8, u8, u8), at: Option<i64>) -> PartFacts {
    PartFacts {
        material_name: material_name.to_string(),
        material: material.to_string(),
        plastic,
        rgb: Rgb { r: rgb.0, g: rgb.1, b: rgb.2 },
        transparent: false,
        placement: at.map(|x| Placement { x, y: 0, z: 0, size_x: 100, size_y: 100, size_z: 100 }),
    }
}

#[test]
fn the_digest_counts_parts_defaults_and_distinct_values() {
    let mut a = entity("Part", "Part");
    a.part = Some(part("", "Plastic", true, (163, 162, 165), Some(0)));
    let mut b = entity("Part", "Part (2)");
    b.part = Some(part("", "Plastic", true, (163, 162, 165), Some(0)));
    let mut c = entity("Part", "Harbor crane");
    let mut glass = part("Tinted", "Glass", false, (10, 20, 30), Some(500));
    glass.transparent = true;
    c.part = Some(glass);
    let mut cam = entity("Camera", "AI Camera");
    cam.is_camera = true;
    let mut label = entity("TextLabel", "TextLabel");
    label.label = Some("Visit example.com".to_string());
    let mut dialog = entity("Dialog", "Shopkeeper");
    dialog.dialog = Some(("Hello there".to_string(), "Bye".to_string()));
    let mut sound = entity("Sound", "Sound");
    sound.sound = Some(" rbxasset://boom ".to_string());
    let mut sound2 = entity("Sound", "Sound");
    sound2.sound = Some("rbxasset://boom".to_string());

    let t = digest_entities(&vec![a, b, c, cam, label, dialog, sound, sound2]);
    assert_eq!(t.entity_count, 7);
    assert_eq!(t.part_count, 3);
    assert_eq!(t.default_material, 2);
    assert_eq!(t.default_color, 2);
    assert_eq!(t.default_name, 5);
    assert_eq!(t.transparent, 1);
    assert_eq!(t.placement_samples, 3);
    assert_eq!(t.placements.len(), 2);
    assert_eq!(t.materials, vec!["Plastic".to_string(), "Tinted".to_string()]);
    assert_eq!(t.colors.len(), 2);
    assert_eq!(t.gui_count, 1);
    assert_eq!(t.text_string_count, 3);
    assert_eq!(
        t.strings,
        vec![
            "Harbor crane".to_string(),
            "Visit example.com".to_string(),
            "Shopkeeper".to_string(),
            "Hello there".to_string(),
            "Bye".to_string()
        ]
    );
    assert_eq!(t.sounds, vec!["rbxasset://boom".to_string()]);
    assert_eq!(t.classes.len(), 7);
}

#[test]
fn an_empty_scene_tallies_nothing() {
    let t = digest_entities(&Vec::new());
    assert_eq!((t.entity_count, t.part_count, t.text_string_count), (0, 0, 0));
    assert!(t.strings.is_empty() && t.classes.is_empty());
}
