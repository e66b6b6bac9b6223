use parabody::kernel::{
    body_bindgroup_layout, config_bindgroup_layout, contains, kernel_source, render, scan,
    BindGroupEntry, BindGroupLayoutEntry, BindingType, BODY_GROUP, CAPACITY_FIELD, CONFIG_GROUP,
    CONFIG_KEY,
};
use parabody::wire::encode_bodies;
use parabody::{
    Body, DynamicConfig, Pipeline, PipelineError, PipelineState, SourceBuffer, StaticConfig,
};

fn config(max_bodies: u32) -> StaticConfig {
    StaticConfig { max_bodies }
}

fn is_template_error<T: std::fmt::Debug>(r: Result<T, PipelineError>) -> bool {
    matches!(r, Err(PipelineError::KernelTemplateError(_)))
}

#[test]
fn the_capacity_is_written_into_the_source() {
    assert_eq!(
        render("const N: u32 = {{ static_config.max_bodies }}u;", config(4)),
        Ok(String::from("const N: u32 = 4u;"))
    );
    assert_eq!(
        render("array<Body, {{static_config.max_bodies}}>", config(4_294_967_295)),
        Ok(String::from("array<Body, 4294967295>"))
    );
}

#[test]
fn every_mention_of_the_capacity_is_replaced() {
    let template = "a: array<Body, {{ static_config.max_bodies }}>; b: array<Body, {{ static_config.max_bodies }}>;";
    assert_eq!(
        render(template, config(16)),
        Ok(String::from("a: array<Body, 16>; b: array<Body, 16>;"))
    );
}

#[test]
fn rendering_differs_from_the_template() {
    let template = "n = {{ static_config.max_bodies }}";
    let rendered = render(template, config(7)).unwrap();
    assert_ne!(rendered, template);
    assert!(!rendered.contains("static_config"));
}

#[test]
fn a_template_without_the_capacity_is_turned_away() {
    assert!(is_template_error(render("fn main() {}", config(4))));
    assert!(is_template_error(render("", config(4))));
    assert!(is_template_error(render("{{ static_config }}", config(4))));
    assert!(is_template_error(render("{{ static_config.max_bodie }}", config(4))));
    assert!(is_template_error(render("{{ max_bodies }}", config(4))));
}

#[test]
fn a_malformed_template_is_a_template_error() {
    assert!(is_template_error(render("{{ static_config.max_bodies ", config(4))));
    assert!(is_template_error(render("{% if %} {{ static_config.max_bodies }}", config(4))));
}

#[test]
fn an_unknown_field_is_a_template_error() {
    assert!(is_template_error(render(
        "{{ static_config.max_bodies }} {{ static_config.min_bodies }}",
        config(4)
    )));
    assert!(is_template_error(render("{{ static_config.max_bodies }} {{ other }}", config(4))));
}

#[test]
fn the_engines_answer_decides() {
    assert_eq!(kernel_source(Ok(String::from("source"))), Ok(String::from("source")));
    match kernel_source(Err(tera::Error::msg("no such thing"))) {
        Err(PipelineError::KernelTemplateError(words)) => assert!(words.contains("no such thing")),
        other => panic!("{:?}", other),
    }
}

#[test]
fn the_capacity_is_named_by_key_and_field() {
    assert_eq!(CONFIG_KEY, "static_config");
    assert_eq!(CAPACITY_FIELD, "max_bodies");
}

#[test]
fn contains_finds_a_pattern_anywhere() {
    assert!(contains(b"abcabd", b"abd"));
    assert!(contains(b"abcabd", b"abc"));
    assert!(contains(b"abcabd", b"cab"));
    assert!(contains(b"abcabd", b"abcabd"));
    assert!(contains(b"abcabd", b""));
    assert!(contains(b"", b""));
    assert!(!contains(b"abcabd", b"abe"));
    assert!(!contains(b"abcabd", b"abcabda"));
    assert!(!contains(b"", b"a"));
    assert!(!contains(b"aab", b"aba"));
}

#[test]
fn create_renders_and_assembles() {
    let (pipeline, setup) =
        Pipeline::create("n = {{ static_config.max_bodies }}", "main", config(4)).unwrap();
    assert_eq!(
        pipeline.state(),
        PipelineState {
            active_source: SourceBuffer::A,
            static_config: config(4),
            dynamic_config: DynamicConfig::default(),
        }
    );
    assert_eq!(setup.shader, "n = 4");
    assert_eq!(setup.entry_point, "main");
    assert_eq!(setup.config_buffer_size, 16);
    assert_eq!(setup.body_buffer_size, 128);
    assert_eq!(setup.config, DynamicConfig::default().to_wire());
    assert_eq!(setup.config_bindgroup_layout, config_bindgroup_layout());
    assert_eq!(setup.body_bindgroup_layout, body_bindgroup_layout());
}

#[test]
fn create_fails_on_a_bad_template() {
    assert!(is_template_error(Pipeline::create("fn main() {}", "main", config(4))));
    assert!(is_template_error(Pipeline::create("{{ static_config.max_bodies", "main", config(4))));
}

#[test]
fn the_buffers_have_room_for_the_capacity() {
    let (_, setup) = Pipeline::assemble(String::new(), "step", config(u32::MAX));
    assert_eq!(setup.body_buffer_size, 32 * 4_294_967_295u64);
    assert_eq!(setup.entry_point, "step");
    let (_, setup) = Pipeline::assemble(String::new(), "step", config(0));
    assert_eq!(setup.body_buffer_size, 0);
    let (mut p, setup) = Pipeline::assemble(String::new(), "step", config(3));
    let write = p.write_bodies(&[Body::default(); 3]).unwrap();
    assert_eq!(write.bytes.len() as u64, setup.body_buffer_size);
    assert_eq!(write.bytes, encode_bodies(&[Body::default(); 3]));
}

#[test]
fn the_layouts_are_what_the_kernel_declares() {
    assert_eq!(CONFIG_GROUP, 0);
    assert_eq!(BODY_GROUP, 1);
    assert_eq!(
        config_bindgroup_layout(),
        vec![BindGroupLayoutEntry { binding: 0, ty: BindingType::Uniform }]
    );
    assert_eq!(
        body_bindgroup_layout(),
        vec![
            BindGroupLayoutEntry { binding: 0, ty: BindingType::Storage { read_only: true } },
            BindGroupLayoutEntry { binding: 1, ty: BindingType::Storage { read_only: false } },
        ]
    );
}

#[test]
fn a_dispatch_finds_its_source_at_the_read_only_binding() {
    assert_eq!(
        SourceBuffer::A.bind_group(),
        vec![
            BindGroupEntry { binding: 0, buffer: SourceBuffer::A },
            BindGroupEntry { binding: 1, buffer: SourceBuffer::B },
        ]
    );
    assert_eq!(
        SourceBuffer::B.bind_group(),
        vec![
            BindGroupEntry { binding: 0, buffer: SourceBuffer::B },
            BindGroupEntry { binding: 1, buffer: SourceBuffer::A },
        ]
    );
}

const PATH: &[u8] = b"static_config.max_bodies";

#[test]
fn blanks_inside_a_placeholder_do_not_matter() {
    for template in [
        "{{static_config.max_bodies}}",
        "{{ static_config.max_bodies }}",
        "{{   static_config.max_bodies}}",
        "{{\tstatic_config.max_bodies\r\n}}",
        "{{\n    static_config.max_bodies\n}}",
    ] {
        assert_eq!(render(template, config(12)), Ok(String::from("12")), "{:?}", template);
    }
}

#[test]
fn text_around_placeholders_is_kept_as_it_is() {
    let template = "fn main() {\n    var a: array<f32, {{ static_config.max_bodies }}>;\n    if (x) { y = 1; }\n}\n";
    assert_eq!(
        render(template, config(8)),
        Ok(String::from("fn main() {\n    var a: array<f32, 8>;\n    if (x) { y = 1; }\n}\n"))
    );
    assert_eq!(render("{ {{ static_config.max_bodies }} } # % é", config(3)), Ok(String::from("{ 3 } # % é")));
}

#[test]
fn naming_the_capacity_outside_a_placeholder_is_not_enough() {
    assert!(is_template_error(render("// static_config.max_bodies", config(4))));
    assert!(is_template_error(render("static_config.max_bodies }}", config(4))));
    assert!(is_template_error(render("{ { static_config.max_bodies } }", config(4))));
}

#[test]
fn any_other_tag_is_turned_away() {
    for template in [
        "{{ static_config.max_bodies }}{# a comment #}",
        "{{ static_config.max_bodies }}{% if true %}x{% endif %}",
        "{{ static_config.max_bodies }}{% raw %}{{ x }}{% endraw %}",
        "{{ static_config.max_bodies | int }}",
        "{{ static_config.max_bodies + 1 }}",
        "{{ static_config.max_bodies2 }}",
        "{{ static_config.max_bodies.x }}",
        "{{- static_config.max_bodies }}",
        "{{ static_config.max_bodies -}}",
        "{{ static_config.max_bodies }}{{",
        "{{ static_config.max_bodies }}{%",
        "{{ static_config.max_bodies }}{#",
        "{{{ static_config.max_bodies }}",
        "{{ static_config.max_bodies }}{{ now() }}",
        "{{ static_config.max_bodies }}{{ get_env(name=\"HOME\") }}",
    ] {
        assert!(is_template_error(render(template, config(4))), "{:?}", template);
    }
}

#[test]
fn a_template_that_would_stop_the_engine_never_reaches_it() {
    assert!(is_template_error(render(
        "{{ static_config.max_bodies }}{{ get_random(end=0) }}",
        config(4)
    )));
    assert!(is_template_error(render(
        "{{ static_config.max_bodies }}{% for i in range(end=5, step_by=0) %}{% endfor %}",
        config(4)
    )));
    assert!(is_template_error(render(
        "{{ static_config.max_bodies }}{{ 1.0e308 + 1.0e308 + 1.0e308 }}",
        config(4)
    )));
}

#[test]
fn scanning_tells_placeholders_from_other_tags() {
    assert_eq!(scan(b"", PATH), Some(false));
    assert_eq!(scan(b"plain { text } with # and % and }}", PATH), Some(false));
    assert_eq!(scan(b"{{static_config.max_bodies}}", PATH), Some(true));
    assert_eq!(scan(b"a {{ static_config.max_bodies }} b {{ static_config.max_bodies }}", PATH), Some(true));
    assert_eq!(scan(b"{", PATH), Some(false));
    assert_eq!(scan(b"{{", PATH), None);
    assert_eq!(scan(b"{%", PATH), None);
    assert_eq!(scan(b"{#", PATH), None);
    assert_eq!(scan(b"{{ static_config.max_bodies }", PATH), None);
    assert_eq!(scan(b"{{ static_config.max_bodies }} {{ other }}", PATH), None);
    assert_eq!(scan(b"{{ other }} {{ static_config.max_bodies }}", PATH), None);
    assert_eq!(scan(b"{{ x }}", b"x"), Some(true));
    assert_eq!(scan(b"{{}}", b""), Some(true));
}

#[test]
fn a_rendered_text_that_still_holds_a_placeholder_is_refused() {
    assert!(is_template_error(kernel_source(Ok(String::from("n = {{ left_over }}")))));
    assert!(is_template_error(kernel_source(Ok(String::from("{{")))));
    assert_eq!(kernel_source(Ok(String::from("{ { } }"))), Ok(String::from("{ { } }")));
    assert_eq!(kernel_source(Ok(String::new())), Ok(String::new()));
}

#[test]
fn rendered_kernels_are_free_of_placeholders() {
    let rendered = render("a {{ static_config.max_bodies }} b", config(4)).unwrap();
    assert!(!rendered.contains("{{"));
    assert_eq!(rendered, "a 4 b");
}

#[test]
fn create_hands_on_the_rendered_kernel() {
    let (_, first) = Pipeline::create("n = {{ static_config.max_bodies }}", "main", config(4)).unwrap();
    let (_, second) = Pipeline::create("n = {{ static_config.max_bodies }}", "main", config(5)).unwrap();
    assert_eq!(first.shader, "n = 4");
    assert_eq!(second.shader, "n = 5");
    assert!(is_template_error(Pipeline::create("n = {{ static_config.max_bodies }}{% x %}", "main", config(4))));
    assert!(is_template_error(Pipeline::create("// static_config.max_bodies", "main", config(4))));
}
