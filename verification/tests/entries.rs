use parse_references::article::Article;
use parse_references::book::Book;
use parse_references::collection::Collection;
use parse_references::inbook::InBook;
use parse_references::incollection::InCollection;
use parse_references::inproceedings::InProceedings;
use parse_references::pages::Pages;
use parse_references::thesis::Thesis;

#[test]
fn simple_article() {
    let article = Article {
        author: "Rezende, M. J.",
        title: "Os sertões e os (des)caminhos da mudança social no Brasil",
        subtitle: None,
        journal: Some("Tempo Social: Revista de Sociologia da USP"),
        location: Some("São Paulo"),
        publisher: None,
        issue: Some("2"),
        volume: Some("13"),
        pages: Some(Pages::Range("201", "226")),
        year: Some("2001"),
        date: None,
    };

    let output = article.to_string();

    assert_eq!(
        output,
        "REZENDE, M. J. Os sertões e os (des)caminhos da mudança social no Brasil. <strong>Tempo Social: Revista de Sociologia da USP</strong>, São Paulo, v. 13, n. 2, p. 201–226, 2001."
    );
}

#[test]
fn abreu() {
    let book = Book {
        title: "Caminhos antigos e povoamento do Brasil",
        subtitle: None,
        author: "Abreu, J. C. d.",
        editor: false,
        year: "1988",
        location: "Belo Horizonte AND S찾o Paulo",
        publisher: "Itatiaia AND EDUSP",
    };

    assert_eq!(book.to_string(), "ABREU, J. C. d. <strong>Caminhos antigos e povoamento do Brasil</strong>. Belo Horizonte: Itatiaia; S찾o Paulo: EDUSP, 1988.")
}

#[test]
fn ackerman() {
    let book = Book {
        title: "Uma Hist처ria Natural dos sentidos",
        subtitle: None,
        editor: false,
        author: "Ackerman, D.",
        year: "1990",
        location: "Rio de Janeiro",
        publisher: "Bertrand Brasil",
    };

    assert_eq!(
        book.to_string(),
        "ACKERMAN, D. <strong>Uma Hist처ria Natural dos sentidos</strong>. Rio de Janeiro: Bertrand Brasil, 1990.",
    )
}

#[test]
fn simple_collection() {
    let col = Collection {
        editor: "Lapa, J. R. A.",
        title: "Modos de produção e realidade brasileira",
        subtitle: None,
        location: "Petrópolis",
        publisher: "Vozes",
        year: "1980",
    };

    assert_eq!(
        col.to_string(),
        "LAPA, J. R. A. (Org.). <strong>Modos de produção e realidade brasileira</strong>. Petrópolis: Vozes, 1980."
    )
}

#[test]
fn simple_inbook() {
    let inbook = InBook {
        title: "A formação da economia colonial no Rio de Janeiro e de sua primeira elite senhorial (séculos XVI e XVII)",
        subtitle: None,
        author: "Fragoso, J. A.",
        year: "2001",
        publisher: "Civilização Brasileira",
        location: "Rio de Janeiro",
        bookauthor: "FRAGOSO, J. and BICALHO, M. F. and GOUVÊA, M. F.",
        booktitle: "O Antigo Regime nos trópicos",
        booksubtitle: Some("a dinâmica Imperial portuguesa (séculos XVI-XVIII)"),
        editor: None,
    };

    assert_eq!(
        inbook.to_string(),
        "FRAGOSO, J. A. A formação da economia colonial no Rio de Janeiro e de sua primeira elite senhorial (séculos XVI e XVII). In: FRAGOSO, J.; BICALHO, M. F.; GOUVÊA, M. F. <strong>O Antigo Regime nos trópicos</strong>: a dinâmica Imperial portuguesa (séculos XVI-XVIII). Rio de Janeiro: Civilização Brasileira, 2001.",
    )
}

#[test]
fn simple_incollection() {
    let incollection = InCollection {
        author: "Alveal, C. M. O.",
        title: "Uma análise preliminar das sesmarias nas Capitanias do Norte",
        subtitle: None,
        booktitle: "A época moderna e o Brasil colonial",
        booksubtitle: Some("conceitos, fontes e pesquisas"),
        editor: "Silva, G. C. M.",
        location: "Maceió",
        publisher: "EDUFAL",
        year: "2019",
    };

    assert_eq!(
        incollection.to_string(),
        "ALVEAL, C. M. O. Uma análise preliminar das sesmarias nas Capitanias do Norte. In: SILVA, G. C. M. (Org.). <strong>A época moderna e o Brasil colonial</strong>: conceitos, fontes e pesquisas. Maceió: EDUFAL, 2019.",
    )
}

#[test]
fn simple_inproceedings() {
    let proc = InProceedings {
        author: "Dias, P. O.",
        title: "Gentes de conquista",
        subtitle: Some("famílias, poder e pecuária na Ribeira do Apodi-Mossoró (1676--1725)"),
        eventtitle: "Encontro Estadual de História",
        number: Some("1"),
        location: "Guarabira, PB",
        year: "2016",
    };

    assert_eq!(
        proc.to_string(),
        "DIAS, P. O. Gentes de conquista: famílias, poder e pecuária na Ribeira do Apodi-Mossoró (1676–1725). In: ENCONTRO ESTADUAL DE HISTÓRIA, 1, 2016, Guarabira, PB."
    )
}

#[test]
fn simple_inproceedings2() {
    let proc = InProceedings {
        author: "Motter, Maria de Lourdes",
        title: "Telenovela",
        subtitle: Some("reflexo e refração na arte do cotidiano"),
        eventtitle: "Congresso Brasileiro de Ciências da Comunicação",
        number: Some("21"),
        location: "Recife",
        year: "1998",
    };

    assert_eq!(
        proc.to_string(),
        "MOTTER, M. d. L. Telenovela: reflexo e refração na arte do cotidiano. In: CONGRESSO BRASILEIRO DE CIÊNCIAS DA COMUNICAÇÃO, 21, 1998, Recife.",
    )
}

#[test]
fn simple_thesis() {
    let thesis = Thesis {
        title: "Onde fica o sertão rompem-se as águas",
        author: "Dias, P. O.",
        year: "2015",
        subtitle: Some("processo de territorialização da ribeira do Apodi-Mossoró (1676–1725)"),
        thesis_type: "Dissertação (Mestrado em História)",
        institution: "Universidade Federal do Rio Grande do Norte",
        location: Some("Natal"),
    };

    assert_eq!(
        thesis.to_string(),
        "DIAS, P. O. <strong>Onde fica o sertão rompem-se as águas</strong>: processo de territorialização da ribeira do Apodi-Mossoró (1676–1725). 2015. Dissertação (Mestrado em História) – Universidade Federal do Rio Grande do Norte, Natal."
    )
}

#[test]
fn thesis_without_a_place() {
    let thesis = Thesis {
        title: "Dinâmicas mercantis coloniais",
        author: "Dias, T. A.",
        year: "2011",
        subtitle: Some("capitania do Rio Grande do Norte (1760--1821)"),
        thesis_type: "Dissertação",
        institution: "UFRN",
        location: None,
    };
    assert_eq!(
        thesis.to_string(),
        "DIAS, T. A. <strong>Dinâmicas mercantis coloniais</strong>: capitania do Rio Grande do Norte (1760–1821). 2011. Dissertação – UFRN."
    );
}

#[test]
fn article_without_author_leads_with_its_first_word() {
    let article = Article {
        author: "",
        title: "Translado do Auto de Terras do Rio Grande",
        subtitle: Some("uma cópia"),
        journal: Some("Revista do IHGRN"),
        location: Some("Natal"),
        publisher: Some("IHGRN"),
        issue: Some("1 e 2"),
        volume: Some("7"),
        pages: Some(Pages::from_str("5--131")),
        year: None,
        date: Some("1909-03-02"),
    };
    assert_eq!(
        article.to_string(),
        "TRANSLADO do Auto de Terras do Rio Grande: uma cópia. <strong>Revista do IHGRN</strong>, Natal: IHGRN, v. 7, n. 1 e 2, p. 5–131, 2. mar. 1909."
    );
}

#[test]
fn article_with_nothing_but_a_title_of_one_word() {
    let article = Article {
        author: "",
        title: "Anais",
        subtitle: None,
        journal: None,
        location: None,
        publisher: None,
        issue: None,
        volume: None,
        pages: None,
        year: None,
        date: None,
    };
    assert_eq!(article.to_string(), "ANAIS ");
}

#[test]
fn book_of_an_organizer() {
    let book = Book {
        title: "Modos de produção",
        subtitle: Some("um debate"),
        author: "Lapa, J. R. A.",
        editor: true,
        year: "1980",
        location: "",
        publisher: "",
    };
    assert_eq!(
        book.to_string(),
        "LAPA, J. R. A. (Org.). <strong>Modos de produção</strong>: um debate. [s.l.: s.n.], 1980."
    );
}

#[test]
fn chapter_of_a_book_without_authors() {
    let inbook = InBook {
        title: "Cap",
        subtitle: Some("sub"),
        author: "Silva, A.",
        year: "2000",
        publisher: "Vozes",
        location: "Natal",
        bookauthor: "",
        booktitle: "O livro grande",
        booksubtitle: None,
        editor: None,
    };
    assert_eq!(
        inbook.to_string(),
        "SILVA, A. Cap: sub. In: O livro grande.. Natal: Vozes, 2000."
    );
    let edited = InBook { editor: Some("Souza, B."), ..inbook };
    assert_eq!(
        edited.to_string(),
        "SILVA, A. Cap: sub. In: SOUZA, B. (Org.). <strong>O livro grande</strong>. Natal: Vozes, 2000."
    );
}

#[test]
fn paper_without_a_number() {
    let proc = InProceedings {
        author: "Dias, P. O.",
        title: "Gentes",
        subtitle: None,
        eventtitle: "Encontro",
        number: None,
        location: "Natal",
        year: "2016",
    };
    assert_eq!(proc.to_string(), "DIAS, P. O. Gentes. In: ENCONTRO, 2016, Natal.");
}
