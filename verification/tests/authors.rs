use parse_references::authors::{Authors, SurnameFirst};
use parse_references::separator::split_on_and;
use parse_references::uppercase::Uppercase;

#[test]
fn test_surname_first() {
    assert_eq!(
        SurnameFirst("Araújo, G.").to_string(),
        "ARAÚJO, G.".to_string()
    );
    assert_eq!(
        SurnameFirst("del Priori, M.").to_string(),
        "PRIORI, M. del".to_string()
    );
}

#[test]
fn test_authors() {
    assert_eq!(Authors("Araújo, G.").to_string(), "ARAÚJO, G.".to_string());

    assert_eq!(
        Authors("Araújo, G. AND Oliveira, F. I. D.").to_string(),
        "ARAÚJO, G.; OLIVEIRA, F. I. D.".to_string()
    );

    assert_eq!(
        Authors("Araújo, G. AND Oliveira, F. I. D. AND de Tal, F. AND de Tal, S.").to_string(),
        "ARAÚJO, G.; <em>et al</em>".to_string()
    );

    assert_eq!(Authors("Prado{ }Jr., C.").to_string(), "PRADO JR., C.",);
}

#[test]
fn test_initials() {
    assert_eq!(Authors("Araújo, Gabriel").to_string(), "ARAÚJO, G.",);
}

#[test]
fn single_name() {
    assert_eq!(Authors("Heródoto").to_string(), "HERÓDOTO",)
}

#[test]
fn remove_braces() {
    let s = "Prado{ }Jr.";

    assert_eq!(Uppercase(s).to_string(), "PRADO JR.",)
}

#[test]
fn uppercase_maps_one_character_to_several() {
    assert_eq!(Uppercase("straße").to_string(), "STRASSE");
    assert_eq!(Uppercase("ﬁm").to_string(), "FIM");
    assert_eq!(Uppercase("").to_string(), "");
}

#[test]
fn three_names_are_all_shown() {
    assert_eq!(
        Authors("Fragoso, J. and Bicalho, M. F. and Gouvêa, M. F.").to_string(),
        "FRAGOSO, J.; BICALHO, M. F.; GOUVÊA, M. F."
    );
}

#[test]
fn empty_field_of_names_is_empty() {
    assert_eq!(Authors("").to_string(), "");
}

#[test]
fn name_without_comma_is_parted_at_its_last_space() {
    assert_eq!(SurnameFirst("Gabriel Araújo").to_string(), "ARAÚJO, G.");
    assert_eq!(SurnameFirst("Maria de Lourdes Motter").to_string(), "MOTTER, M. d. L.");
    assert_eq!(SurnameFirst("Caio Prado{ }Jr.").to_string(), "PRADO JR., C.");
    assert_eq!(Authors("Gabriel Araújo and Mary del Priori").to_string(), "ARAÚJO, G.; PRIORI, M. d.");
    assert_eq!(SurnameFirst("Prado{ }Jr.").to_string(), "PRADO JR.");
}

#[test]
fn several_particles_keep_their_order() {
    assert_eq!(
        SurnameFirst("de la Cruz Souza, Ana Maria").to_string(),
        "CRUZ SOUZA, A. M. de la"
    );
}

#[test]
fn separator_is_found_in_any_case() {
    assert_eq!(split_on_and("a and b AND c And d"), vec!["a", "b", "c", "d"]);
    assert_eq!(split_on_and("Band and Sand"), vec!["Band", "Sand"]);
    assert_eq!(split_on_and("a and and b"), vec!["a", "and b"]);
    assert_eq!(split_on_and(" and "), vec!["", ""]);
    assert_eq!(split_on_and(""), vec![""]);
    assert_eq!(split_on_and("Anderson"), vec!["Anderson"]);
}
