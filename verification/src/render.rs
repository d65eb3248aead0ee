//! The renderer: turns a snapshot of the position store into an explicit
//! list of draw commands. The embedding layer executes the commands against
//! the host drawing surface.

use vstd::prelude::*;
use crate::positions::CursorPosition;
use crate::positions::UserCursorPositionMap;

verus! {

/// One primitive operation on the drawing surface.
#[derive(Clone, Copy, PartialEq, Eq, Structural, Debug)]
pub enum DrawCommand {
    /// Clear the whole surface.
    ClearSurface,
    /// Blit the cursor icon, scaled to `width` x `height`, with its top-left
    /// corner at `(x, y)`.
    DrawIcon { x: i64, y: i64, width: i64, height: i64 },
}

/// The command that draws one cursor: the icon as a square of side
/// `cursor_size`, anchored with its top-left corner at `pos`.
pub fn draw_cursor(pos: &CursorPosition, cursor_size: i64) -> (cmd: DrawCommand)
    ensures
        cmd == (DrawCommand::DrawIcon {
            x: pos.x,
            y: pos.y,
            width: cursor_size,
            height: cursor_size,
        }),
{
    DrawCommand::DrawIcon { x: pos.x, y: pos.y, width: cursor_size, height: cursor_size }
}

/// Renders a snapshot of the position store: clears the whole surface, then
/// issues exactly one icon draw per stored user, each sized
/// `cursor_size` x `cursor_size` at that user's coordinate.
pub fn draw_all_cursor(positions: &UserCursorPositionMap, cursor_size: i64) -> (cmds: Vec<
    DrawCommand,
>)
    ensures
        cmds@.len() == 1 + positions@.dom().len(),
        cmds@[0] == DrawCommand::ClearSurface,
        forall|i: int|
            0 <= i < positions.entries_view().len() ==> cmds@[i + 1] == (DrawCommand::DrawIcon {
                x: (#[trigger] positions.entries_view()[i]).1.x,
                y: positions.entries_view()[i].1.y,
                width: cursor_size,
                height: cursor_size,
            }),
{
    let n = positions.len();
    let mut cmds: Vec<DrawCommand> = Vec::new();
    cmds.push(DrawCommand::ClearSurface);
    let mut i: usize = 0;
    while i < n
        invariant
            n == positions@.dom().len(),
            n == positions.entries_view().len(),
            i <= n,
            cmds@.len() == i + 1,
            cmds@[0] == DrawCommand::ClearSurface,
            forall|j: int|
                0 <= j < i ==> cmds@[j + 1] == (DrawCommand::DrawIcon {
                    x: (#[trigger] positions.entries_view()[j]).1.x,
                    y: positions.entries_view()[j].1.y,
                    width: cursor_size,
                    height: cursor_size,
                }),
        decreases n - i,
    {
        let entry = positions.entry_at(i);
        let cmd = draw_cursor(&entry.1, cursor_size);
        cmds.push(cmd);
        i += 1;
    }
    cmds
}

/// Records `pos` as the current coordinate of `user_id` (adding the user if
/// unknown), then renders the full updated state: the returned command list
/// clears the surface and draws every stored cursor.
pub fn update_cursor_position(
    map: &mut UserCursorPositionMap,
    user_id: String,
    pos: CursorPosition,
    cursor_size: i64,
) -> (cmds: Vec<DrawCommand>)
    ensures
        final(map)@ == old(map)@.insert(user_id@, pos),
        old(map)@.dom().contains(user_id@) ==> exists|i: int|
            0 <= i < old(map).entries_view().len()
                && (#[trigger] old(map).entries_view()[i]).0 == user_id@
                && final(map).entries_view() == old(map).entries_view().update(
                i,
                (user_id@, pos),
            ),
        !old(map)@.dom().contains(user_id@) ==> final(map).entries_view() == old(
            map,
        ).entries_view().push((user_id@, pos)),
        cmds@.len() == 1 + final(map)@.dom().len(),
        cmds@[0] == DrawCommand::ClearSurface,
        forall|i: int|
            0 <= i < final(map).entries_view().len() ==> cmds@[i + 1] == (DrawCommand::DrawIcon {
                x: (#[trigger] final(map).entries_view()[i]).1.x,
                y: final(map).entries_view()[i].1.y,
                width: cursor_size,
                height: cursor_size,
            }),
{
    map.update(user_id, pos);
    let snapshot = crate::positions::get_user_cursor_positions(map);
    draw_all_cursor(&snapshot, cursor_size)
}

} // verus!
