use spellcast::config::{
    Config, DatabaseConfig, DiscordConfig, GameConfig, SecurityConfig, ServerConfig,
};
use spellcast::grid::{GridGenerator, Position};
use spellcast::letters::get_letter_value;

#[test]
fn test_grid_generation() {
    let grid = GridGenerator::generate();
    assert_eq!(grid.len(), 5);
    assert!(grid.iter().all(|row| row.len() == 5));
}

#[test]
fn test_grid_has_multipliers() {
    let grid = GridGenerator::generate();
    let multiplier_count = grid
        .iter()
        .flatten()
        .filter(|cell| cell.multiplier.is_some())
        .count();
    assert!(multiplier_count >= 5 && multiplier_count <= 8);
}

#[test]
fn test_grid_cells_carry_letter_values() {
    let grid = GridGenerator::generate();
    for row in &grid {
        for cell in row {
            assert!(cell.letter.is_ascii_uppercase());
            assert_eq!(cell.value, get_letter_value(cell.letter));
            assert!(!cell.has_gem);
        }
    }
}

#[test]
fn test_replace_letters_touches_only_played_cells() {
    let mut grid = GridGenerator::generate();
    let before = grid.clone();
    let positions = vec![Position { row: 0, col: 0 }, Position { row: 4, col: 4 }];
    GridGenerator::replace_letters(&mut grid, &positions);

    for r in 0..5 {
        for c in 0..5 {
            if (r, c) == (0, 0) || (r, c) == (4, 4) {
                let cell = &grid[r][c];
                assert!(cell.multiplier.is_none());
                assert!(!cell.has_gem);
                assert_eq!(cell.value, get_letter_value(cell.letter));
            } else {
                assert_eq!(grid[r][c].letter, before[r][c].letter);
                assert_eq!(grid[r][c].value, before[r][c].value);
                assert_eq!(grid[r][c].multiplier, before[r][c].multiplier);
            }
        }
    }
}

#[test]
fn test_config_accessors() {
    let config = Config {
        database: DatabaseConfig { url: "postgres://localhost/db".to_string(), max_connections: 10 },
        discord: DiscordConfig {
            client_id: "id".to_string(),
            client_secret: "secret".to_string(),
            redirect_uri: "http://localhost/cb".to_string(),
        },
        server: ServerConfig {
            host: "0.0.0.0".to_string(),
            port: 3000,
            frontend_url: "http://localhost:3000".to_string(),
        },
        security: SecurityConfig {
            jwt_secret: "jwt".to_string(),
            encryption_key: "key".to_string(),
        },
        game: GameConfig {
            dictionary_path: "./dictionary.txt".to_string(),
            max_players: 6,
            default_rounds: 5,
            timer_duration: 30,
        },
    };
    assert_eq!(config.database_url(), "postgres://localhost/db");
    assert_eq!(config.server_addr(), "0.0.0.0:3000");
}
