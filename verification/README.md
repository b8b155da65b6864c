# llama_launch

A desktop launcher for llama.cpp servers: it keeps a library of model
configurations, starts the server with a model's launch arguments, streams
the server's output into a log panel, and stops it again.

- `src/` is the verified library (Verus): the argument tokenizer
  (`launch`), the splitting of server output into log lines and the bounded
  log panel (`ui::logs`, `session`), the settings forms and their rules
  (`ui::settings`), the session's decisions on starting, stopping and closing
  (`session`), and the records and text helpers they use (`models`,
  `config`, `text`). Each public function states its result in its
  contract, except where the result comes from the clock, chance or the
  output channel, where the contract states what holds of every outcome;
  the laws of the library are public proof functions beside the functions
  they speak of.
- `app/` is the program around it: the egui window, reading and writing
  `config.json`, spawning and killing the server process, and the threads
  that read its output.
- `tests/` runs the library on concrete inputs.
