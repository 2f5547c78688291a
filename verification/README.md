# spi_console

A console for a device on an SPI bus. Commands are numbered and written to the bus
as frames (number and operation as 16-bit words, low byte first, then the data). The
device answers with a header (number and size) and data; an answer goes to the command
that has waited longest under its number. Two tables show the commands that wait and
those that are completed, and a log shows what happens on the bus.

`src/` is the verified library:

- `command`, `wire`: commands, their frames and their rows, and the headers of answers;
- `channel`, `queue`: the commands that wait, the completed ones, and the frames on
  their way out;
- `transmit`, `reception`: the decisions of the threads that write and read the bus;
- `console`, `random`: what the keys do, and the data of random commands;
- `messages`, `screen`, `text`, `clock`: the log, the titles and colours, numbers, dumps
  and times.

`app/` is the terminal program around it: the bus, the busy line, the threads, the keys
and the drawing.
