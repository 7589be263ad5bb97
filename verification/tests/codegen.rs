use void_runtime::codegen::{checked_generate_output, generate_output, Callable, PlatformLibrary};
use void_runtime::pattern::Pattern;

fn callable(name: &str, parameter_data: Option<&str>, return_value: Option<&str>) -> Callable {
    Callable {
        name: name.to_string(),
        parameter_data: parameter_data.map(str::to_string),
        return_value: return_value.map(str::to_string),
    }
}

const HEADER: &str = "// The generated code may contain build warnings. Consider using\n\
// an annotation such as the following where this file is included:\n\
// `#![allow(clippy::all, clippy::pedantic, warnings, unused)]`\n\n";

/// The text of one callable, written out line by line.
fn expected_callable(
    indent: &str,
    name: &str,
    parameters: &str,
    return_value: &str,
    cid: &str,
    component: &str,
) -> String {
    let lines = [
        format!("pub struct {name}Fn;\n\n"),
        format!("impl ::void_public::callable::Callable for {name}Fn {{\n"),
        format!("    type Parameters<'a> = {parameters};\n"),
        format!("    type ReturnValue<'a> = {return_value};\n"),
        "}\n\n".to_string(),
        format!("static mut {cid}: Option<::void_public::ComponentId> = None;\n\n"),
        format!("impl ::void_public::EcsType for {name}Fn {{\n"),
        "    fn id() -> ::void_public::ComponentId {\n".to_string(),
        format!("        unsafe {{ {cid}.expect(\"ComponentId unassigned\") }}\n"),
        "    }\n\n".to_string(),
        "    unsafe fn set_id(id: ::void_public::ComponentId) {\n".to_string(),
        format!("        unsafe {{ {cid} = Some(id); }}\n"),
        "    }\n\n".to_string(),
        "    fn string_id() -> &'static ::std::ffi::CStr {\n".to_string(),
        format!("        c\"{component}\"\n"),
        "    }\n".to_string(),
        "}\n\n".to_string(),
    ];
    lines.iter().map(|line| format!("{indent}{line}")).collect()
}

fn audio_library() -> PlatformLibrary {
    PlatformLibrary::new(
        "audio_lib".to_string(),
        vec![
            callable("play", Some("PlayParams"), None),
            callable("mixer::set_volume", Some("Volume"), Some("Ack")),
        ],
        "table PlayParams { id: int; }\nstruct Volume { v: float; }\ntable Ack { ok: bool; }\n"
            .to_string(),
    )
}

#[test]
fn output_of_free_and_system_callables() {
    let library = audio_library();
    let output = generate_output(&library, None, "// events\n");
    let mut expected = String::from(HEADER);
    expected += &expected_callable(
        "",
        "Play",
        "PlayParams<'a>",
        "::void_public::callable::Pod<()>",
        "_PLAY_CID",
        "audio_lib::play",
    );
    expected += "pub mod Mixer {\n";
    expected += "    use super::*;\n\n";
    expected += &expected_callable(
        "    ",
        "SetVolume",
        "Volume",
        "Ack<'a>",
        "_SET_VOLUME_CID",
        "audio_lib::mixer::set_volume",
    );
    expected += "}\n\n";
    expected += "\n\n";
    expected += "// events\n";
    assert_eq!(output, expected);
}

#[test]
fn checked_output_agrees_when_defined() {
    let library = audio_library();
    let checked = checked_generate_output(&library, None, "");
    assert_eq!(checked, Some(generate_output(&library, None, "")));
}

#[test]
fn additional_events_take_a_lifetime_as_parameters_only() {
    let library = PlatformLibrary::new(
        "lib".to_string(),
        vec![callable("send", Some("Custom"), Some("Custom"))],
        String::new(),
    );
    let events = ["Other", "Custom"];
    let output = generate_output(&library, Some(&events[..]), "");
    assert!(output.contains("    type Parameters<'a> = Custom<'a>;\n"));
    assert!(output.contains("    type ReturnValue<'a> = Custom;\n"));
    let without = generate_output(&library, None, "");
    assert!(without.contains("    type Parameters<'a> = Custom;\n"));
}

#[test]
fn systems_come_sorted_and_once() {
    let library = PlatformLibrary::new(
        "lib".to_string(),
        vec![
            callable("video::b", None, None),
            callable("audio::a", None, None),
            callable("video::c", None, None),
        ],
        String::new(),
    );
    let output = generate_output(&library, None, "");
    let audio = output.find("pub mod Audio {").unwrap();
    let video = output.find("pub mod Video {").unwrap();
    assert!(audio < video);
    assert_eq!(output.matches("pub mod Video {").count(), 1);
    assert_eq!(output.matches("pub mod ").count(), 2);
    assert!(output.contains("    pub struct BFn;\n"));
    assert!(output.contains("    pub struct CFn;\n"));
    assert!(output.contains("c\"lib::video::c\""));
}

#[test]
fn pattern_that_does_not_compile_is_refused() {
    let library = PlatformLibrary::new(
        "lib".to_string(),
        vec![callable("broken", Some("Bad("), None)],
        String::new(),
    );
    assert_eq!(checked_generate_output(&library, None, ""), None);
}

#[test]
fn callable_under_a_system_name_without_separator_is_refused() {
    let library = PlatformLibrary::new(
        "lib".to_string(),
        vec![callable("net::send", None, None), callable("network", None, None)],
        String::new(),
    );
    assert_eq!(checked_generate_output(&library, None, ""), None);
}

#[test]
fn patterns_compile_and_match() {
    let pattern = Pattern::compile("table\\sFoo").unwrap();
    assert!(pattern.is_match("table Foo {}"));
    assert!(!pattern.is_match("struct Foo {}"));
    assert!(Pattern::compile("(").is_none());
}

#[test]
fn library_getters() {
    let library = audio_library();
    assert_eq!(library.name(), "audio_lib");
    assert!(library.fbs().starts_with("table PlayParams"));
    assert_eq!(library.functions().len(), 2);
    assert_eq!(library.functions()[1].name, "mixer::set_volume");
}
