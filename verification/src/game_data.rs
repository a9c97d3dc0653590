//! Mapping raw parsed games into validated game records.
//!
//! A raw game arrives from the collaborator that reads the game grammar:
//! a termination and one optional comment per ply.  The mapper processes
//! the batch in order, 1-indexed for reporting, and stops at the first
//! structural problem anywhere in the batch: no partial list of mapped
//! games is ever returned.
//!
//! A missing comment is reported with the 0-based ply index while an
//! unparsable one is reported with the 1-based index: the two failure
//! kinds deliberately count plies differently.

use vstd::prelude::*;
use crate::{GameData, MoveData};
use crate::annotation::{CommentParser, parse_fits, parsed_move};

verus! {

/// How a raw game ended.
#[derive(Debug, Clone, Copy, PartialEq, Eq, Structural)]
pub enum GameTermination {
    WhiteWins,
    DrawnGame,
    BlackWins,
    Unknown,
}

/// One raw ply: the annotation comment, when the source had one.
#[derive(Debug, Clone)]
pub struct RawMove {
    pub comment: Option<String>,
}

/// One raw game as the collaborator hands it over.
#[derive(Debug, Clone)]
pub struct RawGame {
    pub termination: GameTermination,
    pub moves: Vec<RawMove>,
}

/// What was wrong with a single game.
#[derive(Debug, PartialEq, Eq, Structural)]
pub enum GameError {
    UnknownGameTermination,
    MissingComment { ply: u32 },
    BadComment { ply: u32 },
}

/// A mapping failure: the 1-based number of the first bad game, and what
/// was wrong with it.
#[derive(Debug, PartialEq, Eq, Structural)]
pub struct GameMappingError {
    pub game_number: u32,
    pub error: GameError,
}

/// The tenfold score a termination denotes.
pub open spec fn spec_score10(t: GameTermination) -> int {
    match t {
        GameTermination::WhiteWins => 10,
        GameTermination::DrawnGame => 5,
        GameTermination::BlackWins => 0,
        GameTermination::Unknown => 0,
    }
}

/// The move record a raw ply denotes, when its comment parses.
pub open spec fn move_value(mv: RawMove) -> MoveData {
    parsed_move(mv.comment->0@)
}

/// The first problem among the plies at or after `i`: a missing comment
/// (reported 0-based) or one that fails the annotation grammar (reported
/// 1-based).
pub open spec fn spec_first_move_error(moves: Seq<RawMove>, i: int) -> Option<GameError>
    decreases moves.len() - i when i <= moves.len()
{
    if i < 0 || i >= moves.len() {
        None
    } else if moves[i].comment is None {
        Some(GameError::MissingComment { ply: i as u32 })
    } else if !parse_fits(moves[i].comment->0@) {
        Some(GameError::BadComment { ply: (i + 1) as u32 })
    } else {
        spec_first_move_error(moves, i + 1)
    }
}

/// The first problem of one raw game: an unknown termination (checked
/// before any ply) or the first bad ply.
pub open spec fn spec_game_error(g: RawGame) -> Option<GameError> {
    if g.termination is Unknown {
        Some(GameError::UnknownGameTermination)
    } else {
        spec_first_move_error(g.moves@, 0)
    }
}

/// The index of the first failing game at or after `i`, if any.
pub open spec fn spec_first_bad_game(games: Seq<RawGame>, i: int) -> Option<int>
    decreases games.len() - i when i <= games.len()
{
    if i < 0 || i >= games.len() {
        None
    } else if spec_game_error(games[i]) is Some {
        Some(i)
    } else {
        spec_first_bad_game(games, i + 1)
    }
}

/// What a successfully mapped record holds: the termination's tenfold
/// score and the parsed move of every ply, in order.
pub open spec fn game_matches(gd: GameData, g: RawGame) -> bool {
    &&& gd.score10 == spec_score10(g.termination)
    &&& gd.wf()
    &&& gd.move_data@.len() == g.moves@.len()
    &&& forall|p: int| 0 <= p < g.moves@.len() ==> gd.move_data@[p] == move_value(
        #[trigger] g.moves@[p],
    )
}

fn map_single_game_data(game: &RawGame, comment_parser: &CommentParser) -> (r: Result<
    GameData,
    GameError,
>)
    requires
        game.moves@.len() <= 0xffff_ffff,
    ensures
        match r {
            Ok(gd) => spec_game_error(*game) is None && game_matches(gd, *game),
            Err(e) => Some(e) == spec_game_error(*game),
        },
{
    let score10: u32 = match game.termination {
        GameTermination::WhiteWins => 10,
        GameTermination::DrawnGame => 5,
        GameTermination::BlackWins => 0,
        GameTermination::Unknown => {
            return Err(GameError::UnknownGameTermination);
        },
    };

    let len = game.moves.len();
    let mut move_data_vec: Vec<MoveData> = Vec::new();
    let mut ply: usize = 0;
    while ply < len
        invariant
            len == game.moves@.len() <= 0xffff_ffff,
            !(game.termination is Unknown),
            0 <= ply <= len,
            spec_first_move_error(game.moves@, 0) == spec_first_move_error(
                game.moves@,
                ply as int,
            ),
            move_data_vec@.len() == ply,
            forall|p: int| 0 <= p < ply ==> move_data_vec@[p] == move_value(
                #[trigger] game.moves@[p],
            ),
        decreases len - ply,
    {
        match &game.moves[ply].comment {
            None => {
                return Err(GameError::MissingComment { ply: ply as u32 });
            },
            Some(comment) => {
                match comment_parser.parse(comment.as_str()) {
                    Ok(move_data) => {
                        move_data_vec.push(move_data);
                    },
                    Err(_) => {
                        return Err(GameError::BadComment { ply: ply as u32 + 1 });
                    },
                }
            },
        }
        ply = ply + 1;
    }

    Ok(GameData { score10: score10, move_data: move_data_vec })
}

/// Maps a batch of raw games into game records, in order, failing fast:
/// the first structural problem anywhere in the batch is reported with
/// its 1-based game number, and no records at all are returned.
pub fn map_game_data(games: &Vec<RawGame>) -> (r: Result<Vec<GameData>, GameMappingError>)
    requires
        games@.len() <= 0xffff_ffff,
        forall|gi: int| 0 <= gi < games@.len() ==> (#[trigger] games@[gi].moves)@.len()
            <= 0xffff_ffff,
    ensures
        match r {
            Ok(v) => spec_first_bad_game(games@, 0) is None && v@.len() == games@.len()
                && forall|gi: int|
                    0 <= gi < games@.len() ==> game_matches(#[trigger] v@[gi], games@[gi]),
            Err(me) => spec_first_bad_game(games@, 0) matches Some(bi) && me.game_number == bi + 1
                && Some(me.error) == spec_game_error(games@[bi]),
        },
{
    let len = games.len();
    let mut result: Vec<GameData> = Vec::new();
    let comment_parser = CommentParser::new();

    let mut index: usize = 0;
    while index < len
        invariant
            len == games@.len() <= 0xffff_ffff,
            0 <= index <= len,
            spec_first_bad_game(games@, 0) == spec_first_bad_game(games@, index as int),
            forall|gi: int| 0 <= gi < games@.len() ==> (#[trigger] games@[gi].moves)@.len()
                <= 0xffff_ffff,
            result@.len() == index,
            forall|gi: int| 0 <= gi < index ==> game_matches(#[trigger] result@[gi], games@[gi]),
        decreases len - index,
    {
        match map_single_game_data(&games[index], &comment_parser) {
            Ok(game_data) => {
                result.push(game_data);
            },
            Err(error) => {
                return Err(GameMappingError { game_number: index as u32 + 1, error: error });
            },
        }
        index = index + 1;
    }

    Ok(result)
}

} // verus!