# concord_bots

A bot for Vector communities: commands, experience and reputation, giveaways, moderation, git
announcements, Nostr lookups and a Cashu wallet.

`src/` is the library. It holds the decisions the bot makes: how a message is routed, who may do
what, what counts as spam, which commits are new, what each step of a zap leads to, and the exact
text of each reply. All of it is verified with Verus. Weather and prices come as floating-point
numbers, which the library does not hold: `app/` compares and rounds them, and the library puts
their digits into words.

- `auth`, `config`, `rate_limiter`, `cooldown`: who may use the bot, and how often
- `community`: experience, levels, giveaways, reputation and channel switches
- `git_monitor`: repositories, subscriptions, what is announced
- `handlers`: routing and the commands, with auto-moderation in `handlers/automod`
- `wallet`, `npub_cash`, `nip98`, `nak`, `bot`, `http`: what is sent to and read from services
- `json`, `text`, `number`, `table`, `order`, `url`: plain data and its models
- `chance`, `clock`, `keys`, `pattern`: calls into other crates

Functions named `law_...` state what holds across several functions.

`app/` is the program around the library: it connects to the messenger, performs requests, keeps
the tables in SQLite and hands the library plain values. `app/wallet.rs` needs the crates `cdk` and
`cdk-redb` next to those in `Cargo.toml`.

`tests/` runs the library.
