# grid_trader

A program that trades grids at Binance: each grid buys at one price and sells at a higher
one, in turns. The grids of a symbol follow the price, and a web service shows and edits
them.

`src/` is the verified library. It does no input or output. Where something has to be asked
of the exchange, the database or the clock, a function returns a step that says what is
wanted, and the step's `resume` takes the answer and says what comes next. Its contracts say
what comes of every answer.

- `decimal` -- numbers with a decimal point, on top of `rust_decimal`
- `text`, `names` -- strings, and whole numbers written as text
- `config` -- what has to hold of the configuration
- `exchange` -- requests to Binance, how they are signed, held back and repeated, and what
  is taken from the replies
- `models` -- the rows of the tables and every change that is made to them
- `engine` -- the turn of a grid, a round over the grids of a symbol, following the price,
  laying grids out anew, and the tasks that do it
- `web` -- tokens, registration and login, and what users can do with their grids

`app/` is the program around it: the HTTP client, the database, the clock, the tasks and
the web server.

Statements that span several functions are proof functions whose names begin with `law_`.
