use silverdeck::games::{collect_scans, dedup_games, scan_all, Game, GameSource, LaunchSpec, SourceKind};

#[test]
fn dedup_prefers_higher_priority_source() {
    let dup_desktop = Game {
        id: "flatpak:org.example.Game".into(),
        title: "Example Game".into(),
        source: SourceKind::Desktop,
        artwork: None,
        launch: LaunchSpec::Command(vec!["example".into()]),
    };
    let games = dedup_games(vec![
        dup_desktop,
        Game::flatpak("org.example.Game", "Example Game"),
        Game::steam(620, "Portal 2"),
    ]);
    assert_eq!(games.len(), 2);
    let example = games.iter().find(|g| g.id.contains("example")).unwrap();
    assert_eq!(example.source, SourceKind::Flatpak);
}

struct Ok1;

impl GameSource for Ok1 {
    fn id(&self) -> &'static str {
        "ok"
    }
    fn scan(&self) -> Result<Vec<Game>, String> {
        Ok(vec![Game::steam(400, "Portal")])
    }
}

struct Broken;

impl GameSource for Broken {
    fn id(&self) -> &'static str {
        "broken"
    }
    fn scan(&self) -> Result<Vec<Game>, String> {
        Err("no config dir".to_string())
    }
}

#[test]
fn scan_all_collects_source_errors_without_failing() {
    let sources: Vec<Box<dyn GameSource>> = vec![Box::new(Ok1), Box::new(Broken)];
    let (games, errors) = scan_all(&sources);
    assert_eq!(games.len(), 1);
    assert_eq!(errors.len(), 1);
    assert_eq!(errors[0].0, "broken");
}

#[test]
fn games_sorted_by_title_case_insensitive() {
    let games = dedup_games(vec![Game::steam(1, "zelda-like"), Game::steam(2, "Aperture")]);
    assert_eq!(games[0].title, "Aperture");
}

#[test]
fn scan_error_keeps_its_message() {
    let sources: Vec<Box<dyn GameSource>> = vec![Box::new(Broken)];
    let (games, errors) = scan_all(&sources);
    assert!(games.is_empty());
    assert_eq!(errors, vec![("broken".to_string(), "no config dir".to_string())]);
}

#[test]
fn dedup_keeps_one_game_per_id_and_every_id() {
    let games = dedup_games(vec![
        Game::steam(10, "b"),
        Game::steam(10, "a"),
        Game::flatpak("x.Y", "c"),
        Game::steam(11, "a"),
    ]);
    let ids: Vec<&str> = games.iter().map(|g| g.id.as_str()).collect();
    assert_eq!(ids, ["steam:11", "steam:10", "flatpak:x.Y"]);
    // Among games of one id and source, the first found wins.
    assert_eq!(games[1].title, "b");
}

#[test]
fn highest_priority_source_wins_whatever_the_titles() {
    let desktop = Game {
        id: "flatpak:org.example.Game".into(),
        title: "Aardvark".into(),
        source: SourceKind::Desktop,
        artwork: None,
        launch: LaunchSpec::Command(vec!["example".into()]),
    };
    let games = dedup_games(vec![desktop, Game::flatpak("org.example.Game", "Zebra")]);
    assert_eq!(games.len(), 1);
    assert_eq!(games[0].source, SourceKind::Flatpak);
    assert_eq!(games[0].title, "Zebra");
}

#[test]
fn equal_titles_order_by_source_priority() {
    let desktop = Game {
        id: "desktop:t".into(),
        title: "T".into(),
        source: SourceKind::Desktop,
        artwork: None,
        launch: LaunchSpec::Command(vec!["t".into()]),
    };
    let games = dedup_games(vec![desktop, Game::steam(5, "t"), Game::flatpak("t", "T")]);
    let sources: Vec<SourceKind> = games.iter().map(|g| g.source).collect();
    assert_eq!(sources, [SourceKind::Steam, SourceKind::Flatpak, SourceKind::Desktop]);
}

#[test]
fn game_constructors_build_ids_and_launches() {
    let g = Game::steam(620, "Portal 2");
    assert_eq!(g.id, "steam:620");
    assert_eq!(g.launch, LaunchSpec::SteamAppId(620));
    let f = Game::flatpak("org.example.Game", "Example");
    assert_eq!(f.id, "flatpak:org.example.Game");
    assert_eq!(f.launch, LaunchSpec::FlatpakRef("org.example.Game".into()));
    assert_eq!(SourceKind::Heroic.label(), "Heroic");
    assert!(SourceKind::Steam.rank() < SourceKind::Desktop.rank());
}

#[test]
fn title_order_ignores_case() {
    let games = dedup_games(vec![Game::steam(1, "B"), Game::steam(2, "a")]);
    assert_eq!(games[0].title, "a");
    assert_eq!(games[1].title, "B");
}

#[test]
fn collect_scans_merges_successes_and_lists_failures_in_order() {
    let results = vec![
        ("steam".to_string(), Ok(vec![Game::steam(620, "Portal 2")])),
        ("heroic".to_string(), Err("no heroic config".to_string())),
        ("flatpak".to_string(), Ok(vec![Game::flatpak("org.example.Game", "Example Game")])),
        ("desktop".to_string(), Err("unreadable".to_string())),
    ];
    let (games, errors) = collect_scans(results);
    let titles: Vec<&str> = games.iter().map(|g| g.title.as_str()).collect();
    assert_eq!(titles, vec!["Example Game", "Portal 2"]);
    assert_eq!(
        errors,
        vec![
            ("heroic".to_string(), "no heroic config".to_string()),
            ("desktop".to_string(), "unreadable".to_string()),
        ]
    );
}

#[test]
fn library_keeps_first_game_of_best_source_sorted_by_title() {
    let older = Game::steam(7, "Zed");
    let newer = Game::steam(7, "Zed Deluxe");
    let games = dedup_games(vec![Game::flatpak("b.B", "beta"), older, newer, Game::steam(8, "Alpha")]);
    let titles: Vec<&str> = games.iter().map(|g| g.title.as_str()).collect();
    assert_eq!(titles, ["Alpha", "beta", "Zed"]);
}
