# ccm_reborn

A manager for StarCraft II community campaigns: it installs a campaign
package into one of the game's campaign branches, keeps the files it replaced
so the branch can be restored, switches the player's account profile (banks,
saves and campaign progress) between a per-campaign store for each campaign,
and recovers from an install that was interrupted.

## Layout

- `src/` is the library, verified with Verus. Each module states in its
  contracts what it decides: the paths it accepts, the package layout
  (one `metadata.txt`, its folder as the content, and the whole-game-root
  layout's sibling `Mods/`), the
  managed state and the pending-install journal, the install and restore
  plans, the profile switch and its rollback copy, the dry run, the catalog,
  the cloud cache, local mods and the command line. Trusted items (the
  SHA-256, hex, UUID and a few `std` conversions) are the small functions
  marked `#[verifier::external_body]`, each with a doc comment saying what
  its contract claims.
- `tests/` runs the library on concrete values.
- `app/` is the `ccm` command line and the rest of the program's input and
  output: it reads the disk and ZIP/MPQ archives (feeding every file and
  download it hashes, chunk by chunk, to the library's SHA-256 stream), hands
  the library plain values, and carries out the copies, removals and atomic writes the library
  plans.
