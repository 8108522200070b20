use north_pole::markup::{colour_present, html_escape, lockfile_div, ornament, star_markup, Package};

#[test]
fn star_is_fixed() {
    assert_eq!(star_markup(), "<div id=\"star\" class=\"lit\"></div>");
}

#[test]
fn presents_cycle_through_the_colours() {
    assert_eq!(
        colour_present("red").unwrap(),
        "<div class=\"present red\" hx-get=\"/23/present/blue\" hx-swap=\"outerHTML\">\
         <div class=\"ribbon\"></div><div class=\"ribbon\"></div>\
         <div class=\"ribbon\"></div><div class=\"ribbon\"></div></div>"
    );
    assert!(colour_present("blue").unwrap().contains("/23/present/purple"));
    assert!(colour_present("purple").unwrap().contains("/23/present/red"));
    assert_eq!(colour_present("green"), None);
}

#[test]
fn ornaments_toggle_between_on_and_off() {
    assert_eq!(
        ornament("on", "1").unwrap(),
        "<div class=\"ornament on\" id=\"ornament1\" hx-get=\"/23/ornament/off/1\" \
         hx-trigger=\"load delay:2s once\" hx-swap=\"outerHTML\"></div>"
    );
    assert_eq!(
        ornament("off", "5").unwrap(),
        "<div class=\"ornament\" id=\"ornament5\" hx-get=\"/23/ornament/on/5\" \
         hx-trigger=\"load delay:2s once\" hx-swap=\"outerHTML\"></div>"
    );
    assert_eq!(ornament("dim", "1"), None);
}

#[test]
fn ornament_names_are_escaped() {
    let fragment = ornament("on", "\"><i>").unwrap();
    assert!(fragment.contains("id=\"ornament&quot;&gt;&lt;i&gt;\""));
    assert!(!fragment.contains("<i>"));
}

#[test]
fn escaping_replaces_markup_characters() {
    assert_eq!(html_escape("a<b&c>\"d\""), "a&lt;b&amp;c&gt;&quot;d&quot;");
    assert_eq!(html_escape("plain"), "plain");
    assert_eq!(html_escape(""), "");
}

#[test]
fn checksums_become_colour_and_offsets() {
    let p = Package {
        checksum: "1f563e1996ea2775326b1d812dcff7e36e6bf62e87d456f1a6d8985b".to_string(),
    };
    assert_eq!(
        p.cal(),
        Some(("#1f563e".to_string(), 0x19, 0x96))
    );
}

#[test]
fn bad_checksums_are_refused() {
    // Too short.
    assert_eq!(Package { checksum: "abc".to_string() }.cal(), None);
    // A non-hexadecimal character in the colour part.
    assert_eq!(
        Package { checksum: "zf563e1996ea".to_string() }.cal(),
        None
    );
    // A non-hexadecimal character in an offset pair.
    assert_eq!(
        Package { checksum: "1f563e19g6ea".to_string() }.cal(),
        None
    );
}

#[test]
fn patches_carry_colour_and_position() {
    assert_eq!(
        lockfile_div("#1f563e", 0x19, 0x96),
        "<div style=\"background-color:#1f563e;top:25px;left:150px;\"></div>"
    );
}
