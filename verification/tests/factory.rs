use beaver::duplicate;
use beaver::materialize;
use beaver::models_equal;
use beaver::sequence;
use beaver::sequence_a;
use beaver::to_alphabet;
use beaver::Field;
use beaver::Model;

fn whole(i: i64) -> Model {
    Model::Int(i)
}

fn text(s: &str) -> Model {
    Model::Text(s.to_string())
}

fn rec(fields: Vec<(&str, Model)>) -> Model {
    Model::Record(
        fields
            .into_iter()
            .map(|(name, value)| Field { name: name.to_string(), value })
            .collect(),
    )
}

fn ident(m: Model) -> Model {
    m
}

fn file_model(n: u16) -> Model {
    rec(vec![
        ("id", whole(n as i64)),
        ("path", text(&format!("path/to/file-{}", n))),
    ])
}

fn tag_model(n: u16) -> Model {
    rec(vec![
        ("id", whole(n as i64)),
        ("name", text(&format!("tag-{}", n))),
    ])
}

fn file_gen(m: Model, n: u16) -> Model {
    m.with_field("id", whole(n as i64))
        .with_field("path", text(&format!("path/to/file-{}", n)))
}

fn tag_gen(m: Model, n: u16) -> Model {
    m.with_field("id", whole(n as i64))
        .with_field("name", text(&format!("tag-{}", n)))
}

fn post_template() -> Model {
    rec(vec![
        ("id", whole(1)),
        ("title", text("post")),
        ("approved", Model::Bool(true)),
        ("file", file_model(1)),
        ("tags", Model::List(vec![])),
        ("created_at", text("2020-01-01T00:00:00")),
    ])
}

fn post_gen(m: Model, n: u16) -> Model {
    let mut file_factory = beaver::new(file_model(1), file_gen);
    let file = file_factory.build_n(n, ident);
    let mut tag_factory = beaver::new(tag_model(1), tag_gen);
    let tags = tag_factory.build_list_n(3, n, ident);
    m.with_field("id", whole(n as i64))
        .with_field("title", text(&format!("post-{}", n)))
        .with_field("approved", Model::Bool(false))
        .with_field("file", file)
        .with_field("tags", Model::List(tags))
        .with_field("created_at", text("2020-01-01T00:00:00"))
}

fn expected_post(n: u16, first_tag: u16) -> Model {
    rec(vec![
        ("id", whole(n as i64)),
        ("title", text(&format!("post-{}", n))),
        ("approved", Model::Bool(false)),
        ("file", file_model(n)),
        (
            "tags",
            Model::List(vec![
                tag_model(first_tag),
                tag_model(first_tag + 1),
                tag_model(first_tag + 2),
            ]),
        ),
        ("created_at", text("2020-01-01T00:00:00")),
    ])
}

#[test]
fn test_new() {
    let template = rec(vec![
        ("id", whole(1)),
        ("title", text("post")),
        ("approved", Model::Bool(true)),
        (
            "file",
            rec(vec![("id", whole(1)), ("path", text("path/to/beaver.png"))]),
        ),
        ("tags", Model::List(vec![])),
        ("created_at", text("2020-01-01T00:00:00")),
    ]);
    let gen = |m: Model, n: u16| -> Model {
        m.with_field("id", whole(n as i64))
            .with_field("title", text(&format!("post-{}", n)))
            .with_field("approved", Model::Bool(false))
            .with_field(
                "file",
                rec(vec![
                    ("id", whole(n as i64)),
                    ("path", text(&format!("path/to/file-{}", n))),
                ]),
            )
            .with_field(
                "tags",
                Model::List(vec![
                    rec(vec![
                        ("id", whole(n as i64)),
                        ("name", text(&format!("tag-{}", n))),
                    ]),
                    rec(vec![
                        ("id", whole(n as i64 + 1)),
                        ("name", text(&format!("tag-{}", n + 1))),
                    ]),
                    rec(vec![
                        ("id", whole(n as i64 + 2)),
                        ("name", text(&format!("tag-{}", n + 2))),
                    ]),
                ]),
            )
            .with_field("created_at", text("2020-01-01T00:00:00"))
    };
    let post_factory = beaver::new(
        rec(vec![
            ("id", whole(1)),
            ("title", text("post")),
            ("approved", Model::Bool(true)),
            (
                "file",
                rec(vec![("id", whole(1)), ("path", text("path/to/beaver.png"))]),
            ),
            ("tags", Model::List(vec![])),
            ("created_at", text("2020-01-01T00:00:00")),
        ]),
        gen,
    );

    assert!(models_equal(&materialize(&post_factory.model), &template));
    assert_eq!(post_factory.sequence, 1);

    let post = (post_factory.gen_func)(duplicate(&template), 1);

    assert!(models_equal(post.field("id").unwrap(), &whole(1)));
    assert!(models_equal(post.field("title").unwrap(), &text("post-1")));
    assert!(models_equal(
        post.field("approved").unwrap(),
        &Model::Bool(false)
    ));
    assert!(models_equal(
        post.field("file").unwrap(),
        &rec(vec![("id", whole(1)), ("path", text("path/to/file-1"))])
    ));
    assert!(models_equal(
        post.field("tags").unwrap(),
        &Model::List(vec![
            rec(vec![("id", whole(1)), ("name", text("tag-1"))]),
            rec(vec![("id", whole(2)), ("name", text("tag-2"))]),
            rec(vec![("id", whole(3)), ("name", text("tag-3"))]),
        ])
    ));
    assert!(models_equal(
        post.field("created_at").unwrap(),
        &text("2020-01-01T00:00:00")
    ));
}

#[test]
fn test_sequence() {
    assert_eq!(sequence(2, 1), 2);
    assert_eq!(sequence(2, 2), 3);
    assert_eq!(sequence(2, 3), 4);
}

#[test]
fn test_sequence_a() {
    assert_eq!(sequence_a("a", 1).unwrap(), "a");
    assert_eq!(sequence_a("a", 2).unwrap(), "b");
    assert_eq!(sequence_a("a", 3).unwrap(), "c");

    assert_eq!(sequence_a("b", 1).unwrap(), "b");
    assert_eq!(sequence_a("b", 2).unwrap(), "c");
    assert_eq!(sequence_a("b", 3).unwrap(), "d");

    assert_eq!(sequence_a("z", 1).unwrap(), "z");
    assert_eq!(sequence_a("z", 2).unwrap(), "aa");
    assert_eq!(sequence_a("z", 3).unwrap(), "ab");

    assert_eq!(sequence_a("z", 28).unwrap(), "ba");
    assert_eq!(sequence_a("z", 677).unwrap(), "zz");
    assert_eq!(sequence_a("z", 678).unwrap(), "aaa");
    assert_eq!(sequence_a("z", 975).unwrap(), "all");
    assert_eq!(sequence_a("z", 9975).unwrap(), "ntp");
}

#[test]
fn test_to_alphabet() {
    assert_eq!(to_alphabet(0), "a");
    assert_eq!(to_alphabet(25), "z");
    assert_eq!(to_alphabet(26), "aa");
    assert_eq!(to_alphabet(52), "ba");
    assert_eq!(to_alphabet(701), "zz");
    assert_eq!(to_alphabet(702), "aaa")
}

#[test]
fn is_builds_struct() {
    let mut file_factory = beaver::new(file_model(1), file_gen);
    let mut post_factory = beaver::new(post_template(), post_gen);

    let override_file = file_factory.build(ident);

    let post1 = post_factory.build(ident);
    let post2 = post_factory.build(ident);
    let post3 = post_factory.build(|post: Model| {
        post.with_field("id", whole(1024))
            .with_field("title", text("foo"))
            .with_field("file", duplicate(&override_file))
    });
    let posts = post_factory.build_list(2, ident);

    assert!(models_equal(&post1, &expected_post(1, 1)));
    assert!(models_equal(&post2, &expected_post(2, 4)));

    let expected3 = expected_post(3, 7)
        .with_field("id", whole(1024))
        .with_field("title", text("foo"))
        .with_field(
            "file",
            rec(vec![("id", whole(1)), ("path", text("path/to/file-1"))]),
        );
    assert!(models_equal(&post3, &expected3));

    assert_eq!(posts.len(), 2);
    assert!(models_equal(&posts[0], &expected_post(4, 10)));
    assert!(models_equal(&posts[1], &expected_post(5, 13)));
}
