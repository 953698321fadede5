# nexus_bot

The logic of the Discord bot of the Nexus games platform, as a library
verified with Verus: the game portal (session channels, panels, settings
cards, platform events, the opening of a session step by step), mentionable games (panels, reactions, select menus,
roles), the wheel of fortune, coins, cushion duels and steals, counter
channels, achievements and the guild guard.

Layout:

- `src/` — the verified library; each module states its functions'
  behaviour in `requires`/`ensures` over spec functions, and the laws that
  span several functions as public proof functions.
- `tests/` — tests of the library on concrete values.
- `app/` — the program around it: Discord (serenity), the HTTP client of
  nexus-api (reqwest), the event bus, the environment.
