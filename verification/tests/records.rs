use std::cmp::Ordering;

use parse_references::abnt::{entry_kind, Abnt, EntryKind};
use parse_references::article::Article;
use parse_references::bibliography::{record_is_reserved, sort_references};
use parse_references::book::Book;
use parse_references::collection::Collection;
use parse_references::errors::FormatError;
use parse_references::extra::ExtraInfo;
use parse_references::incollection::InCollection;
use parse_references::inproceedings::InProceedings;
use parse_references::punctuation::{CharType, FixPunctuation};
use parse_references::record::Record;
use parse_references::tags::from_tags;

fn record(entry_type: &str, key: &str, tags: &[(&str, &str)]) -> Record {
    Record {
        entry_type: entry_type.to_string(),
        citation_key: key.to_string(),
        tags: tags.iter().map(|(k, v)| (k.to_string(), v.to_string())).collect(),
    }
}

fn parsed(entry: &str) -> Record {
    let bibtex = nom_bibtex::Bibtex::parse(entry).expect("valid bibtex");
    let bib = &bibtex.bibliographies()[0];
    Record {
        entry_type: bib.entry_type().to_string(),
        citation_key: bib.citation_key().to_string(),
        tags: bib.tags().iter().map(|(k, v)| (k.clone(), v.clone())).collect(),
    }
}

fn shown(entry: &str) -> String {
    Abnt(&parsed(entry)).to_string().expect("a reference")
}

#[test]
fn article_from_bib() {
    let entry = r"
    @article{Azevedo1959,
        title        = {Aldeias e aldeamentos},
        author       = {Azevedo, A.},
        year         = 1959,
        number       = 33,
        pages        = 27,
        journaltitle = {Boletim Paulista de Geografia}
    }
    ";

    assert_eq!(
        shown(entry),
        "AZEVEDO, A. Aldeias e aldeamentos. <strong>Boletim Paulista de Geografia</strong>, n. 33, p. 27, 1959.",
    );
}

#[test]
fn article_from_bib_4() {
    let entry = "
    @article{DiarioDeNatal1949SemTitulo,
        journal      = {Di??rio de Natal},
        location     = {Natal},
        pages        = {5},
        date         = {1949-07-10},
        entrysubtype = {newspaper}
      }
    ";

    assert_eq!(
        shown(entry),
        "<strong>Di??rio de Natal</strong>, Natal, p. 5, 10. jul. 1949.",
    );
}

#[test]
fn article_from_bib_6() {
    let entry = "
    @misc{RelatorioDNOC1976,
        title = {Relat??riodo Departamento Nacional de Obras Contra as Secas (DNOCS)},
        year  = {1976},
        note  = {Arquivo da Par??quia da Diocese de Caic??}
    }
    ";

    assert_eq!(
        shown(entry),
        r#"RELAT??RIODO Departamento Nacional de Obras Contra as Secas (DNOCS). 1976. Arquivo da Par??quia da Diocese de Caic??."#,
    );
}

#[test]
fn book_from_bib3() {
    let entry = "
    @movie{TroubledLand1961,
        title        = {{The troubled} land. Produ????o e dire????o de Helen Jean Rogers},
        sorttitle    = {Troubled land, The},
        location     = {Recife},
        publisher    = {ABC Studios},
        year         = {1961},
        entrysubtype = {documentary movie}
    }
    ";

    assert_eq!(
        shown(entry),
        r#"THE TROUBLED land. Produ????o e dire????o de Helen Jean Rogers. Recife: ABC Studios, 1961."#,
    );
}

#[test]
fn book_from_bib() {
    let entry = r"
    @book{Assuncao2004,
        title        = {Neg??cios Jesu??ticos},
        author       = {Assun????o, P.},
        year         = 2004,
        publisher    = {Editora da Universidade de S??o Paulo},
        address      = {S??o Paulo},
        subtitle     = {o cotidiano da administra????o dos bens divinos}
    }
    ";

    assert_eq!(
        shown(entry),
        "ASSUN????O, P. <strong>Neg??cios Jesu??ticos</strong>: o cotidiano da administra????o dos bens divinos. S??o Paulo: Editora da Universidade de S??o Paulo, 2004.",
    );
}

#[test]
fn book_from_bib2() {
    let entry = r"
    @book{Passos1854,
        author = {Passos, A. B.},
        year   = {1854}
    }
    ";

    assert_eq!(shown(entry), "PASSOS, A. B. [s.l.: s.n.], 1854.",);
}

#[test]
fn inbook_from_bib() {
    let entry = r"
    @inbook{Fragoso2001,
        title        = {A forma????o da economia colonial no Rio de Janeiro e de sua primeira elite senhorial (s??culos XVI e XVII)},
        author       = {Fragoso, J. A.},
        year         = 2001,
        booktitle    = {O Antigo Regime nos tr??picos},
        publisher    = {Civiliza????o Brasileira},
        address      = {Rio de Janeiro},
        pages        = {29--71},
        bookauthor   = {FRAGOSO, J. and BICALHO, M. F. and GOUV??A, M. F.},
        booksubtitle = {a din??mica Imperial portuguesa (s??culos XVI-XVIII)},
        edition      = 2
    }
    ";

    assert_eq!(
        shown(entry),
        "FRAGOSO, J. A. A forma????o da economia colonial no Rio de Janeiro e de sua primeira elite senhorial (s??culos XVI e XVII). In: FRAGOSO, J.; BICALHO, M. F.; GOUV??A, M. F. <strong>O Antigo Regime nos tr??picos</strong>: a din??mica Imperial portuguesa (s??culos XVI-XVIII). Rio de Janeiro: Civiliza????o Brasileira, 2001.",
    );
}

#[test]
fn incollection_from_bib() {
    let entry = r"
    @incollection{Alveal2019,
        author       = {Alveal, C. M. O.},
        title        = {Uma an??lise preliminar das sesmarias nas Capitanias do Norte},
        pages        = {231--242},
        booktitle    = {A ??poca moderna e o Brasil colonial},
        booksubtitle = {conceitos, fontes e pesquisas},
        editor       = {Silva, G. C. M.},
        editortype   = {organizer},
        address      = {Macei??},
        publisher    = {EDUFAL},
        year         = {2019}
      }
    ";

    assert_eq!(
        shown(entry),
        "ALVEAL, C. M. O. Uma an??lise preliminar das sesmarias nas Capitanias do Norte. In: SILVA, G. C. M. (Org.). <strong>A ??poca moderna e o Brasil colonial</strong>: conceitos, fontes e pesquisas. Macei??: EDUFAL, 2019.",
    );
}

#[test]
fn article_from_bib_3() {
    let entry = "
    @article{Chateaubriand1952Show,
        author       = {Chateaubriand, A.},
        title        = {O ``show'' de Jacques Fath},
        journal      = {Di??rio de Natal},
        location     = {Natal},
        pages        = {3},
        date         = {1952-07-24},
        entrysubtype = {newspaper}
      }
    ";

    assert_eq!(
        shown(entry),
        "CHATEAUBRIAND, A. O “show” de Jacques Fath. <strong>Di??rio de Natal</strong>, Natal, p. 3, 24. jul. 1952.",
    );
}

#[test]
fn article_from_bib_5() {
    let entry = "
    @online{MarizCPDOC,
        title   = {Dinarte de Medeiros Mariz | CPDOC},
        url     = {http://www.fgv.br/cpdoc/acervo/dicionarios/verbete-biografico/dinarte-de-medeiros-mariz},
        urldate = {2019-07-19}
    }
    ";

    assert_eq!(
        shown(entry),
        "DINARTE de Medeiros Mariz | CPDOC.  Disponível em: <span class=\"font-mono\">&lt;<http://www.fgv.br/cpdoc/acervo/dicionarios/verbete-biografico/dinarte-de-medeiros-mariz>&gt;</span>. Acesso em: 19. jul. 2019.",
    );
}

#[test]
fn thesis_from_bib() {
    let entry = r"
    @thesis{Dias2011,
        title        = {Din??micas mercantis coloniais},
        author       = {Dias, T. A.},
        year         = 2011,
        subtitle     = {capitania do Rio Grande do Norte (1760--1821)},
        type         = {Disserta????o (Mestrado em Hist??ria e espa??os)},
        institution  = {Universidade Federal do Rio Grande do Norte}
    }
    ";

    assert_eq!(
        shown(entry),
        "DIAS, T. A. <strong>Din??micas mercantis coloniais</strong>: capitania do Rio Grande do Norte (1760–1821). 2011. Disserta????o (Mestrado em Hist??ria e espa??os) – Universidade Federal do Rio Grande do Norte.",
    );
}

#[test]
fn article_from_bib_2() {
    let entry = r"
    @article{Translado1909,
        title        = {Translado do Auto de Terras do Rio Grande},
        year         = 1909,
        volume       = 7,
        number       = {1 e 2},
        pages        = {5--131},
        journaltitle = {Revista do IHGRN}
    }
    ";

    assert_eq!(
        shown(entry),
        "TRANSLADO do Auto de Terras do Rio Grande. <strong>Revista do IHGRN</strong>, v. 7, n. 1 e 2, p. 5–131, 1909.",
    );
}

#[test]
fn inproceedings_from_bib() {
    let entry = r"
    @inproceedings{EcMOTTERTelenovela,
        author     = {Motter, Maria de Lourdes},
        title      = {Telenovela},
        subtitle   = {reflexo e refra????o na arte do cotidiano},
        eventtitle = {Congresso Brasileiro de Ci??ncias da Comunica????o},
        number     = {21},
        venue      = {Recife},
        eventyear  = {1998},
        location   = {Recife},
        year       = {1998},
        url        = {http://www.portcom.intercom.org.br/pdfs/de14671ff94329deb4d1756ec2696184.PDF}
      }
    ";

    assert_eq!(
        shown(entry),
        "MOTTER, M. d. L. Telenovela: reflexo e refra????o na arte do cotidiano. In: CONGRESSO BRASILEIRO DE CI??NCIAS DA COMUNICA????O, 21, 1998, Recife. Disponível em: <span class=\"font-mono\">&lt;<http://www.portcom.intercom.org.br/pdfs/de14671ff94329deb4d1756ec2696184.PDF>&gt;</span>.",
    );
}

#[test]
fn collection_from_bib() {
    let entry = r"
    @collection{Lapa1980modos,
        editor     = {Lapa, J. R. A.},
        editortype = {organizer},
        title      = {Modos de produ????o e realidade brasileira},
        location   = {Petr??polis},
        publisher  = {Vozes},
        year       = {1980}
      }
    ";

    assert_eq!(
        shown(entry),
        "LAPA, J. R. A. (Org.). <strong>Modos de produ????o e realidade brasileira</strong>. Petr??polis: Vozes, 1980.",
    );
}

#[test]
fn collection_with_a_plain_editor_fails() {
    let r = record(
        "collection",
        "Lapa1980modos",
        &[("editor", "Lapa, J. R. A."), ("title", "Modos"), ("year", "1980")],
    );
    assert_eq!(
        Abnt(&r).to_string(),
        Err(FormatError::InvalidEditorRole { citation_key: "Lapa1980modos".to_string() })
    );
    assert!(Collection::from_bib(&r).is_err());
    let typed = record(
        "collection",
        "Lapa1980modos",
        &[("editor", "Lapa, J. R. A."), ("editortype", "compiler")],
    );
    assert!(Collection::from_bib(&typed).is_err());
}

#[test]
fn organizer_tag_names_the_editor() {
    let r = record(
        "collection",
        "k",
        &[("editor", "Silva, A."), ("organizer", "Lapa, J. R. A."), ("title", "Modos"), ("year", "1980")],
    );
    assert_eq!(
        Abnt(&r).to_string().unwrap(),
        "LAPA, J. R. A. (Org.). <strong>Modos</strong>. [s.l.: s.n.], 1980."
    );
    let chapter = InCollection::from_bib(&r).unwrap();
    assert_eq!(chapter.editor, "Lapa, J. R. A.");
}

#[test]
fn chapter_of_a_collection_needs_an_organizer() {
    let r = record("incollection", "Alveal2019", &[("author", "Alveal, C."), ("editor", "Silva, G.")]);
    assert_eq!(
        Abnt(&r).to_string(),
        Err(FormatError::InvalidEditorRole { citation_key: "Alveal2019".to_string() })
    );
}

#[test]
fn book_with_an_editor_needs_an_organizer() {
    let plain = record("book", "B1", &[("editor", "Silva, G."), ("year", "2000")]);
    let err = Book::from_bib(&plain).err().unwrap();
    assert_eq!(err, FormatError::InvalidEditorRole { citation_key: "B1".to_string() });
    assert_eq!(err.message(), "invalid editor type: expecting organizer, citation_key: B1");
    let typed = record(
        "book",
        "B2",
        &[("editor", "Silva, G."), ("editortype", "organizer"), ("year", "2000")],
    );
    let book = Book::from_bib(&typed).unwrap();
    assert!(book.editor);
    assert_eq!(book.to_string(), "SILVA, G. (Org.). [s.l.: s.n.], 2000.");
    let authored = record("book", "B3", &[("author", "Silva, G."), ("editortype", "compiler")]);
    assert!(!Book::from_bib(&authored).unwrap().editor);
}

#[test]
fn unknown_entry_type_is_an_error() {
    let r = record("patent", "P1", &[("title", "x")]);
    let err = Abnt(&r).to_string().err().unwrap();
    assert_eq!(err, FormatError::UnrecognizedEntryType { entry_type: "patent".to_string() });
    assert_eq!(err.message(), "unexpected type: patent");
    assert_eq!(entry_kind("patent"), None);
    assert_eq!(entry_kind("misc"), Some(EntryKind::Article));
    assert_eq!(entry_kind("inbook"), Some(EntryKind::InBook));
}

#[test]
fn first_tag_of_a_name_wins() {
    let r = record(
        "article",
        "k",
        &[
            ("title", " First "),
            ("title", "Second"),
            ("address", "Natal"),
            ("location", "Recife"),
            ("number", "1"),
            ("issue", "2"),
        ],
    );
    let article = Article::from_bib(&r);
    assert_eq!(article.title, "First");
    assert_eq!(article.location, Some("Natal"));
    assert_eq!(article.issue, Some("1"));
    assert_eq!(article.author, "");
    assert_eq!(article.year, None);
    assert_eq!(r.field("title"), Some(" First "));
    assert_eq!(r.field_of_two("location", "address"), Some("Natal"));
    assert_eq!(r.field("missing"), None);
}

#[test]
fn synonyms_of_a_paper() {
    let r = record("inproceedings", "k", &[("venue", "Recife"), ("eventyear", "1998"), ("year", "1999")]);
    let paper = InProceedings::from_bib(&r);
    assert_eq!(paper.location, "Recife");
    assert_eq!(paper.year, "1998");
}

#[test]
fn closing_elements_of_a_record() {
    let r = record(
        "misc",
        "k",
        &[
            ("doi", " https://doi.org/10.1000/182 "),
            ("url", " http://example.org "),
            ("urldate", "2020-12-14"),
            ("note", " Some note... "),
        ],
    );
    let extra = ExtraInfo::from_bib(&r);
    assert_eq!(extra.doi, Some("10.1000/182"));
    assert_eq!(extra.url, Some("http://example.org"));
    assert_eq!(extra.note, Some("Some note"));
    assert_eq!(
        extra.to_string(),
        " Some note. Disponível em: <span class=\"font-mono\">&lt;<https://doi.org/10.1000/182>&gt;</span>. Acesso em: 14. dez. 2020."
    );
    let plain = record("misc", "k", &[("doi", "http://doi.org/10.1/2")]);
    assert_eq!(ExtraInfo::from_bib(&plain).doi, Some("10.1/2"));
    let bare = record("misc", "k", &[("doi", "10.1/2")]);
    assert_eq!(ExtraInfo::from_bib(&bare).doi, Some("10.1/2"));
}

#[test]
fn sort_key_falls_back_in_order() {
    let with_sort = record("book", "k", &[("sorttitle", " Troubled land, The "), ("author", "Z, A."), ("year", " 1961 ")]);
    let key = Abnt(&with_sort).sort_key();
    assert_eq!(key.key.as_deref(), Some("Troubled land, The"));
    assert_eq!(key.year.as_deref(), Some("1961"));
    let with_author = record("book", "k", &[("editor", "Silva, B."), ("author", "Abreu, J."), ("title", "T")]);
    assert_eq!(Abnt(&with_author).sort_key().key.as_deref(), Some("ABREU, J."));
    let with_editor = record("book", "k", &[("title", "T"), ("editor", "Silva, B.")]);
    assert_eq!(Abnt(&with_editor).sort_key().key.as_deref(), Some("SILVA, B."));
    let with_title = record("book", "k", &[("title", " Title ")]);
    assert_eq!(Abnt(&with_title).sort_key().key.as_deref(), Some("Title"));
    let bare = record("book", "k", &[]);
    let key = Abnt(&bare).sort_key();
    assert_eq!(key.key, None);
    assert_eq!(key.year, None);
}

#[test]
fn equal_keys_are_ordered_by_year() {
    let early = record("book", "a", &[("author", "Dias, P."), ("year", "2011")]);
    let late = record("book", "b", &[("author", "Dias, P."), ("year", "2015")]);
    let undated = record("book", "c", &[("author", "Dias, P.")]);
    assert_eq!(Abnt(&early).cmp(&Abnt(&late)), Ordering::Less);
    assert_eq!(Abnt(&late).cmp(&Abnt(&early)), Ordering::Greater);
    assert_eq!(Abnt(&early).cmp(&Abnt(&early)), Ordering::Equal);
    assert_eq!(Abnt(&undated).cmp(&Abnt(&early)), Ordering::Less);
    assert_eq!(Abnt(&early).partial_cmp(&Abnt(&late)), Some(Ordering::Less));
}

#[test]
fn records_are_ordered_by_their_keys() {
    let a = record("book", "a", &[("author", "Abreu, J."), ("year", "1988")]);
    let b = record("book", "b", &[("author", "Ackerman, D."), ("year", "1990")]);
    let keyless = record("book", "c", &[("year", "1500")]);
    let accented = record("book", "d", &[("author", "Álvares, D."), ("year", "1500")]);
    let prefix = record("book", "e", &[("author", "Abreu"), ("year", "1999")]);
    assert_eq!(Abnt(&a).cmp(&Abnt(&b)), Ordering::Less);
    assert_eq!(Abnt(&keyless).cmp(&Abnt(&a)), Ordering::Less);
    assert_eq!(Abnt(&b).cmp(&Abnt(&accented)), Ordering::Less);
    assert_eq!(Abnt(&prefix).cmp(&Abnt(&a)), Ordering::Less);
    let list = vec![Abnt(&b), Abnt(&accented), Abnt(&a), Abnt(&keyless), Abnt(&prefix)];
    let sorted = sort_references(&list);
    let keys: Vec<&str> = sorted.iter().map(|r| r.0.citation_key.as_str()).collect();
    assert_eq!(keys, vec!["c", "e", "a", "b", "d"]);
}

#[test]
fn sorting_keeps_the_order_of_equal_keys() {
    let first = record("book", "first", &[("author", "Dias, P."), ("year", "2011")]);
    let second = record("book", "second", &[("author", "Dias, P."), ("year", "2011")]);
    let sorted = sort_references(&vec![Abnt(&first), Abnt(&second)]);
    assert_eq!(sorted[0].0.citation_key, "first");
    assert_eq!(sorted[1].0.citation_key, "second");
    assert!(sort_references(&Vec::new()).is_empty());
}

#[test]
fn reserved_citation_keys() {
    assert!(record_is_reserved(&record("book", "SelfPortrait", &[])));
    assert!(!record_is_reserved(&record("book", "MySelf", &[])));
    assert!(!record_is_reserved(&record("book", "Sel", &[])));
}

#[test]
fn required_fields_are_all_reported() {
    let r = record("book", "k", &[("title", "T"), ("year", "1"), ("title", "U")]);
    assert_eq!(from_tags(&r, &vec!["title", "year"]), Ok(vec!["T".to_string(), "1".to_string()]));
    let err = from_tags(&r, &vec!["author", "title", "publisher"]).err().unwrap();
    assert_eq!(err.missing_tags, vec!["author".to_string(), "publisher".to_string()]);
    assert_eq!(from_tags(&r, &Vec::new()), Ok(Vec::new()));
}

#[test]
fn punctuation_is_not_doubled() {
    let mut filter = FixPunctuation::new();
    assert_eq!(filter.write_str("a.,b"), "a.b");
    assert_eq!(filter.write_str("c. "), "c. ");
    assert_eq!(filter.write_str("x?"), "x?");
    assert_eq!(filter.write_str("!y"), "!y");
    assert_eq!(filter.write_str("G.. H.; I:; J…."), "G.. H.; I: J…");
    assert_eq!(filter.write_str(" ?? ?! !? !!"), " ?? ?! !? !!");
    assert_eq!(filter.write_str("k."), "k.");
    assert_eq!(filter.write_str(","), "");
    assert_eq!(filter.write_str("."), "");
    assert_eq!(filter.write_str(""), "");
    assert_eq!(filter.last_char_type, CharType::Punctuation('.'));
    assert_eq!(CharType::of('x'), CharType::Other);
    assert_eq!(CharType::of('…'), CharType::Punctuation('…'));
}
