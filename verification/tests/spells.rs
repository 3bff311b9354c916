use spell_parser::{FocusOrEffect, Spell, SpellArea, SpellBreakpoint, SpellError, SpellTarget};

fn expect(spell_str: &str, spell: Spell) {
    assert_eq!(spell_str.parse(), Ok(spell));
}

#[test]
fn simple_spell() {
    expect(
        "border-radius=8px",
        Spell {
            area: None,
            focus_effect: None,
            component: String::from("border-radius"),
            target: SpellTarget::CSSValue(String::from("8px")),
        },
    );
}

#[test]
fn spell_with_area() {
    expect(
        "(width>=768px)__br=0.375rem",
        Spell {
            area: Some(SpellArea::MediaQuery(String::from("width>=768px"))),
            focus_effect: None,
            component: String::from("br"),
            target: SpellTarget::CSSValue(String::from("0.375rem")),
        },
    );
}

#[test]
fn spell_with_focus() {
    expect(
        "{[hidden]_>_p:hover:active}color=red",
        Spell {
            area: None,
            focus_effect: Some(FocusOrEffect::Focus(String::from("[hidden]_>_p:hover:active"))),
            component: String::from("color"),
            target: SpellTarget::CSSValue(String::from("red")),
        },
    );
}

#[test]
fn spell_with_effect() {
    expect(
        "hover,active:background-color=darkgrey",
        Spell {
            area: None,
            focus_effect: Some(FocusOrEffect::Effect(vec![
                String::from("hover"),
                String::from("active"),
            ])),
            component: String::from("background-color"),
            target: SpellTarget::CSSValue(String::from("darkgrey")),
        },
    );
}

#[test]
fn spell_with_variables() {
    expect(
        "btn=8px_lightgrey_grey_darkgrey",
        Spell {
            area: None,
            focus_effect: None,
            component: String::from("btn"),
            target: SpellTarget::Variables(vec![
                String::from("8px"),
                String::from("lightgrey"),
                String::from("grey"),
                String::from("darkgrey"),
            ]),
        },
    );
}

#[test]
fn complex_spell_area_focus() {
    expect(
        "md__{[hidden]_>_p:hover:active}color=red",
        Spell {
            area: Some(SpellArea::Breakpoint(SpellBreakpoint::Medium)),
            focus_effect: Some(FocusOrEffect::Focus(String::from("[hidden]_>_p:hover:active"))),
            component: String::from("color"),
            target: SpellTarget::CSSValue(String::from("red")),
        },
    );
}

#[test]
fn complex_spell_area_effect() {
    expect(
        "md__hover,active:color=red",
        Spell {
            area: Some(SpellArea::Breakpoint(SpellBreakpoint::Medium)),
            focus_effect: Some(FocusOrEffect::Effect(vec![
                String::from("hover"),
                String::from("active"),
            ])),
            component: String::from("color"),
            target: SpellTarget::CSSValue(String::from("red")),
        },
    );
}

// A focus takes the place of an effect: what follows the closing brace is the
// component, colon and all.
#[test]
fn complex_spell_area_focus_effect() {
    expect(
        "md__{_>_p}hover:display=none",
        Spell {
            area: Some(SpellArea::Breakpoint(SpellBreakpoint::Medium)),
            focus_effect: Some(FocusOrEffect::Focus(String::from("_>_p"))),
            component: String::from("hover:display"),
            target: SpellTarget::CSSValue(String::from("none")),
        },
    );
    let spell: Spell = "md__{_>_p}hover:display=none".parse().unwrap();
    assert_ne!(spell.focus_effect, Some(FocusOrEffect::Effect(vec![String::from("hover")])));
    assert_ne!(spell.component, "display");
}

#[test]
fn missing_assignment_is_reported() {
    assert_eq!("border-radius".parse::<Spell>(), Err(SpellError::MissingAssignment));
}

#[test]
fn every_breakpoint_keyword_names_its_size() {
    let sizes = [
        ("sm", SpellBreakpoint::Small),
        ("md", SpellBreakpoint::Medium),
        ("lg", SpellBreakpoint::Large),
        ("xl", SpellBreakpoint::XLarge),
        ("xxl", SpellBreakpoint::XXLarge),
    ];
    for (keyword, size) in sizes {
        let spell: Spell = format!("{}__component=value", keyword).parse().unwrap();
        assert_eq!(spell.area, Some(SpellArea::Breakpoint(size)));
        assert_eq!(spell.focus_effect, None);
        assert_eq!(spell.component, "component");
        assert_eq!(spell.target, SpellTarget::CSSValue(String::from("value")));
    }
}

#[test]
fn without_double_underscore_there_is_no_area() {
    for text in ["a=b", "hover:a=b", "{x}a=b", "sm_a=b", "(min)_a=b c"] {
        let spell: Spell = text.parse().unwrap();
        assert_eq!(spell.area, None);
    }
    // Read from the first character on: the text is the same spell as the
    // one after an area, but for the area.
    let bare: Spell = "hover,active:color=red".parse().unwrap();
    let scoped: Spell = "lg__hover,active:color=red".parse().unwrap();
    assert_eq!(bare.focus_effect, scoped.focus_effect);
    assert_eq!(bare.component, scoped.component);
    assert_eq!(bare.target, scoped.target);
    assert_eq!(scoped.area, Some(SpellArea::Breakpoint(SpellBreakpoint::Large)));
}

#[test]
fn braces_always_give_a_focus() {
    for (text, selector) in [
        ("{x}a=b", "x"),
        ("{a:b}c=d", "a:b"),
        ("{a,b:c}d=e", "a,b:c"),
        ("{hover,active:}color=red", "hover,active:"),
        ("{}a=b", ""),
        ("{a=b}c=d", "a=b"),
        ("{{a}b}c=d", "{a"),
    ] {
        let spell: Spell = text.parse().unwrap();
        assert_eq!(spell.focus_effect, Some(FocusOrEffect::Focus(String::from(selector))));
    }
}

#[test]
fn text_after_a_focus_belongs_to_the_component() {
    let spell: Spell = "{a}b,c:d=e".parse().unwrap();
    assert_eq!(spell.focus_effect, Some(FocusOrEffect::Focus(String::from("a"))));
    assert_eq!(spell.component, "b,c:d");
    assert_eq!(spell.target, SpellTarget::CSSValue(String::from("e")));
}

#[test]
fn missing_equals_fails_whatever_precedes() {
    for text in [
        "color",
        "md__color",
        "md__hover:color",
        "md__hover,active:color",
        "{x}color",
        "md__{x}color",
        "(width>=768px)__{x}color",
        "hover:",
        "{x}",
        "x",
    ] {
        assert_eq!(text.parse::<Spell>(), Err(SpellError::MissingAssignment), "{}", text);
    }
}

#[test]
fn an_equals_sign_inside_the_area_or_focus_does_not_count() {
    assert_eq!("(a=b)__c".parse::<Spell>(), Err(SpellError::MissingAssignment));
    assert_eq!("{a=b}c".parse::<Spell>(), Err(SpellError::MissingAssignment));
}

#[test]
fn the_first_fault_from_the_left_is_reported() {
    assert_eq!("zz__{x".parse::<Spell>(), Err(SpellError::UnknownBreakpoint(String::from("zz"))));
    assert_eq!("md__{x".parse::<Spell>(), Err(SpellError::UnterminatedFocus));
    assert_eq!("md__".parse::<Spell>(), Err(SpellError::UnterminatedSpell));
    assert_eq!("".parse::<Spell>(), Err(SpellError::UnterminatedSpell));
}

#[test]
fn the_component_ends_at_the_first_equals_sign() {
    let spell: Spell = "a=b=c".parse().unwrap();
    assert_eq!(spell.component, "a");
    assert_eq!(spell.target, SpellTarget::CSSValue(String::from("b=c")));
    let spell: Spell = "=b".parse().unwrap();
    assert_eq!(spell.component, "");
    let spell: Spell = "a=".parse().unwrap();
    assert_eq!(spell.target, SpellTarget::CSSValue(String::new()));
}

#[test]
fn an_equals_sign_before_the_colon_means_no_effect() {
    let spell: Spell = "a=b:c".parse().unwrap();
    assert_eq!(spell.focus_effect, None);
    assert_eq!(spell.component, "a");
    assert_eq!(spell.target, SpellTarget::CSSValue(String::from("b:c")));
}

#[test]
fn the_area_ends_at_the_first_double_underscore() {
    // The first `__` of the whole text counts, also one meant for the target.
    assert_eq!("x=a__b".parse::<Spell>(), Err(SpellError::UnknownBreakpoint(String::from("x=a"))));
    let spell: Spell = "md__x=a__b".parse().unwrap();
    assert_eq!(spell.area, Some(SpellArea::Breakpoint(SpellBreakpoint::Medium)));
    assert_eq!(
        spell.target,
        SpellTarget::Variables(vec![String::from("a"), String::new(), String::from("b")])
    );
    // Of three underscores the first two are the marker.
    let spell: Spell = "md___x=1".parse().unwrap();
    assert_eq!(spell.component, "_x");
}

#[test]
fn text_beyond_ascii_is_read_by_characters() {
    let spell: Spell = "(größe>=1)__{§}füllung=größe_weiß".parse().unwrap();
    assert_eq!(spell.area, Some(SpellArea::MediaQuery(String::from("größe>=1"))));
    assert_eq!(spell.focus_effect, Some(FocusOrEffect::Focus(String::from("§"))));
    assert_eq!(spell.component, "füllung");
    assert_eq!(
        spell.target,
        SpellTarget::Variables(vec![String::from("größe"), String::from("weiß")])
    );
    let spell: Spell = "höhe,breite:é=→".parse().unwrap();
    assert_eq!(
        spell.focus_effect,
        Some(FocusOrEffect::Effect(vec![String::from("höhe"), String::from("breite")]))
    );
    assert_eq!(spell.component, "é");
    assert_eq!(spell.target, SpellTarget::CSSValue(String::from("→")));
}

#[test]
fn reading_is_repeatable() {
    let text = "md__hover,active:color=a_b";
    assert_eq!(text.parse::<Spell>(), text.parse::<Spell>());
    assert_eq!(Spell::from_str(text), text.parse::<Spell>());
}
