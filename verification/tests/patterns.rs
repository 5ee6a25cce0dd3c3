use game_of_life::gameoflife::GameOfLife;

#[test]
fn test_tick_stable() {
    let mut game = GameOfLife::new();
    // stable square
    game.set_alive(1, 1);
    game.set_alive(1, 2);
    game.set_alive(2, 1);
    game.set_alive(2, 2);
    println!("{}----------", game.pretty_state());
    game.tick();
    assert_eq!(game.snapshot(), game.previous())
}

#[test]
fn test_tick_flip() {
    let mut game = GameOfLife::new();
    // a line flips between horizontal and vertical
    game.set_alive(1, 1);
    game.set_alive(1, 2);
    game.set_alive(1, 3);
    println!("{}----------", game.pretty_state());
    game.tick();
    assert_ne!(game.snapshot(), game.previous());
    println!("{}----------", game.pretty_state());
    game.tick();
    assert_ne!(game.snapshot(), game.previous());
    assert!(game.is_alive(1, 1) && game.is_alive(1, 2) && game.is_alive(1, 3));
}

#[test]
fn test_tick_cross() {
    let mut game = GameOfLife::new();
    // a plus sign, which burns out on a universe this small
    game.set_alive(1, 1);
    game.set_alive(1, 2);
    game.set_alive(1, 3);
    game.set_alive(2, 2);
    game.set_alive(0, 2);
    while !game.is_dead() {
        game.tick();
        println!("{}----------", game.pretty_state());
    }
}

#[test]
fn test_tick_glider() {
    let mut game = GameOfLife::new();
    // a glider in the upper left corner
    game.set_alive(0, 1);
    game.set_alive(1, 2);
    game.set_alive(2, 0);
    game.set_alive(2, 1);
    game.set_alive(2, 2);
    println!("{}----------", game.pretty_state());
    while !game.is_dead() && game.generation() < 4 {
        game.tick();
        println!("{}----------", game.pretty_state());
    }
    assert!(
        game.is_alive(1, 2)
            && game.is_alive(2, 3)
            && game.is_alive(3, 1)
            && game.is_alive(3, 2)
            && game.is_alive(3, 3),
        "glider moved down in (1,1) direction"
    )
}

#[test]
fn test_tick_dead_in_2_ticks() {
    let mut game = GameOfLife::new();
    assert!(game.is_dead());
    // "v" -> 2 high "I" -> gone
    game.set_alive(1, 1);
    game.set_alive(1, 3);
    game.set_alive(2, 2);
    assert!(!game.is_dead());
    println!("{}----------", game.pretty_state());
    game.tick();
    println!("{}----------", game.pretty_state());
    assert!(!game.is_dead());
    game.tick();
    println!("{}----------", game.pretty_state());
    assert!(game.is_dead())
}
