# clue_solver

A helper for a game of Clue. It keeps, for every player, what is known of
whether they hold each weapon, suspect and room; records the suggestions made
at the table; draws the deductions they allow; and lists the cards that may
still be in the envelope.

- `src/cards.rs`: the cards, their names, reading a card from its name.
- `src/inventory.rs`: a record of one value per card.
- `src/deduction.rs`: the model of a table's knowledge, the deduction rule,
  the repeated passes over the record, and the laws proved of them.
- `src/game.rs`: the game state and its operations, each with its contract.
- `src/command.rs`: the words typed at the prompts.
- `app/`: the interactive program (standard input and output, saving as TOML).
