use pbinfo_api::choose_solution_source;
use pbinfo_api::parse_config;
use pbinfo_api::render_config;
use pbinfo_api::PbinfoUser;
use pbinfo_api::PbinfoUserError;
use pbinfo_api::SolutionSource;
use pbinfo_api::SolveError;

#[test]
fn new_session_has_placeholder_material() {
    let user = PbinfoUser::new("user@example.com".to_string(), "secret".to_string());
    assert_eq!(user.email, "user@example.com");
    assert_eq!(user.password, "secret");
    assert_eq!(user.user_id, "");
    assert_eq!(user.ssid.chars().count(), 26);
    assert!(user.ssid.chars().all(|c| c.is_ascii_digit() || ('a'..='z').contains(&c)));
    assert_eq!(user.form_token.chars().count(), 40);
    assert!(user.form_token.chars().all(|c| c.is_ascii_digit() || ('a'..='f').contains(&c)));
}

#[test]
fn getters_read_the_credentials() {
    let mut user = PbinfoUser::new("a@b.c".to_string(), "pw".to_string());
    assert_eq!(user.get_email(), "a@b.c");
    assert_eq!(user.get_password(), "pw");
    *user.get_mut_email() = "new@b.c".to_string();
    *user.get_mut_password() = "pw2".to_string();
    assert_eq!(user.get_email(), "new@b.c");
    assert_eq!(user.get_password(), "pw2");
}

fn fixed_user() -> PbinfoUser {
    PbinfoUser {
        email: "a".to_string(),
        password: "b".to_string(),
        ssid: "c".to_string(),
        form_token: "d".to_string(),
        user_id: "e".to_string(),
    }
}

#[test]
fn render_config_exact_shape() {
    let text = render_config(&fixed_user());
    assert_eq!(
        text,
        "email = \"a\"\npassword = \"b\"\nssid = \"c\"\nform_token = \"d\"\nuser_id = \"e\"\n"
    );
}

#[test]
fn config_round_trips_plain_fields() {
    let user = fixed_user();
    let loaded = parse_config(&render_config(&user)).unwrap();
    assert_eq!(loaded.email, user.email);
    assert_eq!(loaded.password, user.password);
    assert_eq!(loaded.ssid, user.ssid);
    assert_eq!(loaded.form_token, user.form_token);
    assert_eq!(loaded.user_id, user.user_id);
}

#[test]
fn config_round_trips_awkward_fields() {
    let user = PbinfoUser {
        email: "quote\" and \\ backslash".to_string(),
        password: "line\nbreak\r tab\t".to_string(),
        ssid: "ünïcødé Încearcă".to_string(),
        form_token: "".to_string(),
        user_id: "\"\"".to_string(),
    };
    let loaded = parse_config(&render_config(&user)).unwrap();
    assert_eq!(loaded.email, user.email);
    assert_eq!(loaded.password, user.password);
    assert_eq!(loaded.ssid, user.ssid);
    assert_eq!(loaded.form_token, user.form_token);
    assert_eq!(loaded.user_id, user.user_id);
}

#[test]
fn parse_config_reads_handwritten_text() {
    let text = "email = \"me@host\"\npassword = \"p\\\\w\"\nssid = \"s\"\nform_token = \"t\"\nuser_id = \"7\"\n";
    let user = parse_config(text).unwrap();
    assert_eq!(user.email, "me@host");
    assert_eq!(user.password, "p\\w");
    assert_eq!(user.user_id, "7");
}

#[test]
fn parse_config_rejects_garbage() {
    for bad in [
        "",
        "nonsense",
        "email = \"a\"\n",
        "email = \"a\"\npassword = \"b\"\nssid = \"c\"\nform_token = \"d\"\nuser_id = \"e\"\nextra",
        "email = \"unterminated\npassword = \"b\"\nssid = \"c\"\nform_token = \"d\"\nuser_id = \"e\"\n",
    ] {
        assert!(matches!(
            parse_config(bad),
            Err(PbinfoUserError::TomlParseError { .. })
        ));
    }
}

#[test]
fn solution_source_priority_order() {
    let r = choose_solution_source(Some("override".to_string()), Some("builtin".to_string()));
    assert!(matches!(r, SolutionSource::FromOverride(t) if t == "override"));
    let r = choose_solution_source(None, Some("builtin".to_string()));
    assert!(matches!(r, SolutionSource::FromBuiltin(t) if t == "builtin"));
    let r = choose_solution_source(None, None);
    assert!(matches!(r, SolutionSource::FetchRemote));
}

#[test]
fn solve_error_variants_carry_diagnostics() {
    let e = SolveError::GetSolutionError {
        problem_id: "123".to_string(),
        err: "nothing found".to_string(),
    };
    assert!(matches!(e, SolveError::GetSolutionError { .. }));
    let e = SolveError::UploadError {
        problem_id: "123".to_string(),
        err: "rejected".to_string(),
    };
    assert!(matches!(e, SolveError::UploadError { .. }));
}
